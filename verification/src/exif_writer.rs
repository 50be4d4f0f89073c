//! Minimal EXIF writing for frame exports: a little-endian TIFF blob that
//! carries the `DateTimeOriginal` (and optional `DateTimeDigitized`) tags, and
//! the APP1 segment that puts it into a JPEG stream.

use vstd::prelude::*;
use crate::dates;
use crate::text;

verus! {

/// Whether a text has the EXIF datetime shape `YYYY:MM:DD HH:MM:SS`: 19
/// characters, colons at 4, 7, 13 and 16, a space at 10, digits elsewhere.
pub open spec fn exif_shape(s: Seq<char>) -> bool {
    &&& s.len() == 19
    &&& forall|i: int| 0 <= i < 19 ==> exif_char(i, #[trigger] s[i])
}

/// The character that the EXIF datetime shape allows at position `i`.
pub open spec fn exif_char(i: int, c: char) -> bool {
    if i == 4 || i == 7 || i == 13 || i == 16 {
        c == ':'
    } else if i == 10 {
        c == ' '
    } else {
        text::is_digit(c)
    }
}

/// Whether `s` is the exact EXIF datetime shape `YYYY:MM:DD HH:MM:SS`.
pub fn is_exif_datetime(s: &str) -> (r: bool)
    ensures
        r == exif_shape(s@),
{
    let chars: Vec<char> = text::chars_of(s);
    if chars.len() != 19 {
        return false;
    }
    let mut i: usize = 0;
    while i < 19
        invariant
            i <= 19,
            chars@ == s@,
            chars@.len() == 19,
            forall|j: int| 0 <= j < i ==> exif_char(j, #[trigger] chars@[j]),
        decreases 19 - i,
    {
        let c: char = chars[i];
        let fits: bool = if i == 4 || i == 7 || i == 13 || i == 16 {
            c == ':'
        } else if i == 10 {
            c == ' '
        } else {
            c >= '0' && c <= '9'
        };
        if !fits {
            assert(!exif_char(i as int, chars@[i as int]));
            return false;
        }
        i += 1;
    }
    true
}

/// The EXIF notation of a date and a second of that day.
#[verifier::opaque]
pub open spec fn stamp(year: nat, month: nat, day: nat, seconds: nat) -> Seq<char> {
    text::zero_padded(text::decimal(year), 4) + seq![':'] + text::zero_padded(
        text::decimal(month),
        2,
    ) + seq![':'] + text::zero_padded(text::decimal(day), 2) + seq![' '] + text::zero_padded(
        text::decimal(seconds / 3600),
        2,
    ) + seq![':'] + text::zero_padded(text::decimal(seconds % 3600 / 60), 2) + seq![':']
        + text::zero_padded(text::decimal(seconds % 60), 2)
}

/// Whether a text is the EXIF notation of the moment that lies `offset`
/// seconds after the midnight that begins `start`.
pub open spec fn is_shifted(start: (u32, u32, u32), offset: nat, r: Seq<char>) -> bool {
    exists|year: nat, month: nat, day: nat|
        #![trigger stamp(year, month, day, offset % 86_400)]
        {
            &&& dates::is_date(year as int, month as int, day as int)
            &&& dates::day_number(year, month as int, day as int) == dates::day_number(
                start.0 as nat,
                start.1 as int,
                start.2 as int,
            ) + offset / 86_400
            &&& r == stamp(year, month, day, offset % 86_400)
        }
}

/// The EXIF notation of a date and an offset from its midnight. There is none
/// where the text is no date, or the days in the offset do not fit 32 bits.
pub open spec fn shifted(start_iso: Seq<char>, offset: nat) -> Option<Seq<char>> {
    match dates::iso_date(start_iso) {
        Some(start) if offset / 86_400 <= u32::MAX => Some(
            choose|r: Seq<char>| is_shifted(start, offset, r),
        ),
        _ => None,
    }
}

/// The calendar day that lies `carry` days after a date.
fn days_later(start: (u32, u32, u32), carry: u32) -> (r: (u64, u32, u64))
    requires
        dates::is_date(start.0 as int, start.1 as int, start.2 as int),
    ensures
        dates::is_date(r.0 as int, r.1 as int, r.2 as int),
        dates::day_number(r.0 as nat, r.1 as int, r.2 as int) == dates::day_number(
            start.0 as nat,
            start.1 as int,
            start.2 as int,
        ) + carry,
{
    let mut year: u64 = start.0 as u64;
    let mut month: u32 = start.1;
    let mut day: u64 = start.2 as u64 + carry as u64;
    let ghost target = dates::day_number(start.0 as nat, start.1 as int, start.2 as int) + carry;
    loop
        invariant
            1 <= month <= 12,
            1 <= day <= 0x2_0000_0000,
            year + day <= 0x3_0000_0000,
            dates::day_number(year as nat, month as int, day as int) == target,
        ensures
            dates::is_date(year as int, month as int, day as int),
            dates::day_number(year as nat, month as int, day as int) == target,
        decreases day,
    {
        let length: u64 = month_days(year, month);
        if day <= length {
            break;
        }
        proof {
            dates::months_fill_the_year(year as nat);
        }
        day = day - length;
        if month == 12 {
            month = 1;
            year = year + 1;
        } else {
            month = month + 1;
        }
    }
    (year, month, day)
}

/// [`dates::days_in_month`] for years of any size.
fn month_days(year: u64, month: u32) -> (r: u64)
    ensures
        r == dates::month_length(year as int, month as int),
        28 <= r <= 31,
{
    let cycle: u32 = (year % 400) as u32;
    assert(cycle as int == year as int % 400);
    assert(dates::is_leap(cycle as int) == dates::is_leap(year as int));
    dates::days_in_month(cycle, month) as u64
}

/// `YYYY-MM-DD` plus `offset_secs` from midnight, in the EXIF notation
/// `YYYY:MM:DD HH:MM:SS`: the `DateTimeOriginal` of a frame whose roll carries
/// a start date. `None` when `start_iso` is no date, or when the days in the
/// offset do not fit 32 bits.
pub fn shifted_datetime(start_iso: &str, offset_secs: usize) -> (r: Option<String>)
    ensures
        r is Some <==> dates::iso_date(start_iso@) is Some && offset_secs as nat / 86_400
            <= u32::MAX,
        r is Some ==> is_shifted(
            dates::iso_date(start_iso@).unwrap(),
            offset_secs as nat,
            r.unwrap()@,
        ),
        text::text_of(r) == shifted(start_iso@, offset_secs as nat),
{
    let start: (u32, u32, u32) = match dates::parse_iso_date(start_iso) {
        Some(date) => date,
        None => {
            return None;
        },
    };
    let days: usize = offset_secs / 86_400;
    if days > 0xffff_ffff {
        return None;
    }
    let seconds: usize = offset_secs % 86_400;
    let (year, month, day) = days_later(start, days as u32);
    let mut out: String = text::padded_text(year, 4);
    out.push(':');
    out.push_str(text::padded_text(month as u64, 2).as_str());
    out.push(':');
    out.push_str(text::padded_text(day, 2).as_str());
    out.push(' ');
    out.push_str(text::padded_text((seconds / 3600) as u64, 2).as_str());
    out.push(':');
    out.push_str(text::padded_text((seconds % 3600 / 60) as u64, 2).as_str());
    out.push(':');
    out.push_str(text::padded_text((seconds % 60) as u64, 2).as_str());
    proof {
        reveal(stamp);
        assert(out@ =~= stamp(
            year as nat,
            month as nat,
            day as nat,
            offset_secs as nat % 86_400,
        ));
        assert(is_shifted(start, offset_secs as nat, out@));
        shift_is_unique(
            start,
            offset_secs as nat,
            out@,
            shifted(start_iso@, offset_secs as nat).unwrap(),
        );
    }
    Some(out)
}

/// The two bytes of a little-endian 16-bit number.
pub open spec fn le16(v: int) -> Seq<u8> {
    seq![(v % 256) as u8, (v / 256) as u8]
}

/// The four bytes of a little-endian 32-bit number.
pub open spec fn le32(v: int) -> Seq<u8> {
    seq![
        (v % 256) as u8,
        (v / 256 % 256) as u8,
        (v / 65_536 % 256) as u8,
        (v / 16_777_216) as u8,
    ]
}

/// Pushes a single little-endian `u16` into `buf`.
pub fn push_u16(buf: &mut Vec<u8>, value: u16)
    ensures
        final(buf)@ == old(buf)@ + le16(value as int),
{
    buf.push((value % 256) as u8);
    buf.push((value / 256) as u8);
    assert(buf@ =~= old(buf)@ + le16(value as int));
}

/// Pushes a single little-endian `u32` into `buf`.
pub fn push_u32(buf: &mut Vec<u8>, value: u32)
    ensures
        final(buf)@ == old(buf)@ + le32(value as int),
{
    buf.push((value % 256) as u8);
    buf.push((value / 256 % 256) as u8);
    buf.push((value / 65_536 % 256) as u8);
    buf.push((value / 16_777_216) as u8);
    assert(buf@ =~= old(buf)@ + le32(value as int));
}

/// One ASCII entry of an image file directory: `tag`, type 2, a count of 20
/// characters, then where in the blob the characters stand.
pub open spec fn ascii_entry(tag: int, value_offset: int) -> Seq<u8> {
    le16(tag) + le16(2) + le32(20) + le32(value_offset)
}

/// Writes a single ASCII tag entry into the Exif directory.
pub fn push_ascii_entry(buf: &mut Vec<u8>, tag: u16, value_offset: u32)
    ensures
        final(buf)@ == old(buf)@ + ascii_entry(tag as int, value_offset as int),
{
    push_u16(buf, tag);
    push_u16(buf, 2);
    push_u32(buf, 20);
    push_u32(buf, value_offset);
    assert(buf@ =~= old(buf)@ + ascii_entry(tag as int, value_offset as int));
}

/// A text of ASCII characters as bytes, with a NUL behind it.
pub open spec fn ascii_value(s: Seq<char>) -> Seq<u8> {
    Seq::new(s.len(), |i: int| s[i] as u8).push(0)
}

/// The header and the first directory of the blob: byte-order mark, the first
/// directory at 8, and in it one entry that points to the Exif directory at
/// 26.
pub open spec fn tiff_head() -> Seq<u8> {
    seq![0x49u8, 0x49u8, 0x2Au8, 0u8] + le32(8) + le16(1) + le16(0x8769) + le16(4) + le32(1)
        + le32(26) + le32(0)
}

/// The Exif directory: one entry for each datetime, then no next directory.
pub open spec fn exif_directory(both: bool) -> Seq<u8> {
    if both {
        le16(2) + ascii_entry(0x9003, 56) + ascii_entry(0x9004, 76) + le32(0)
    } else {
        le16(1) + ascii_entry(0x9003, 44) + le32(0)
    }
}

/// The values that the Exif directory points to.
pub open spec fn exif_values(original: Seq<char>, digitized: Option<Seq<char>>) -> Seq<u8> {
    match digitized {
        None => ascii_value(original),
        Some(d) => ascii_value(original) + ascii_value(d),
    }
}

/// The whole blob: header, first directory, Exif directory, and the values it
/// points to.
pub open spec fn tiff_blob(original: Seq<char>, digitized: Option<Seq<char>>) -> Seq<u8> {
    tiff_head() + exif_directory(digitized is Some) + exif_values(original, digitized)
}

/// Pushes the characters of an EXIF datetime and the NUL behind them.
fn push_datetime(buf: &mut Vec<u8>, value: &str)
    requires
        exif_shape(value@),
    ensures
        final(buf)@ == old(buf)@ + ascii_value(value@),
{
    let chars: Vec<char> = text::chars_of(value);
    let mut i: usize = 0;
    while i < chars.len()
        invariant
            i <= chars@.len(),
            chars@ == value@,
            exif_shape(value@),
            buf@ == old(buf)@ + Seq::new(i as nat, |j: int| value@[j] as u8),
        decreases chars@.len() - i,
    {
        assert(exif_char(i as int, value@[i as int]));
        buf.push(chars[i] as u8);
        assert(buf@ =~= old(buf)@ + Seq::new((i + 1) as nat, |j: int| value@[j] as u8));
        i += 1;
    }
    buf.push(0);
    assert(buf@ =~= old(buf)@ + ascii_value(value@));
}

/// Serializes the minimal little-endian TIFF that a reader resolves into the
/// given `DateTimeOriginal` (and optional `DateTimeDigitized`) in the Exif
/// directory. Both must have the exact EXIF datetime shape, or there is no
/// blob.
pub fn build_tiff(original: &str, digitized: Option<&str>) -> (r: Option<Vec<u8>>)
    ensures
        r is Some <==> exif_shape(original@) && (digitized is Some ==> exif_shape(
            digitized.unwrap()@,
        )),
        r is Some ==> r.unwrap()@ == tiff_blob(original@, text::slice_of(digitized)),
{
    if !is_exif_datetime(original) {
        return None;
    }
    if let Some(d) = digitized {
        if !is_exif_datetime(d) {
            return None;
        }
    }
    let mut out: Vec<u8> = Vec::new();
    out.push(0x49);
    out.push(0x49);
    out.push(0x2A);
    out.push(0);
    push_u32(&mut out, 8);
    push_u16(&mut out, 1);
    push_u16(&mut out, 0x8769);
    push_u16(&mut out, 4);
    push_u32(&mut out, 1);
    push_u32(&mut out, 26);
    push_u32(&mut out, 0);
    assert(out@ =~= tiff_head());
    match digitized {
        None => {
            push_u16(&mut out, 1);
            push_ascii_entry(&mut out, 0x9003, 44);
            push_u32(&mut out, 0);
            assert(out@ =~= tiff_head() + exif_directory(false));
            push_datetime(&mut out, original);
        },
        Some(d) => {
            push_u16(&mut out, 2);
            push_ascii_entry(&mut out, 0x9003, 56);
            push_ascii_entry(&mut out, 0x9004, 76);
            push_u32(&mut out, 0);
            assert(out@ =~= tiff_head() + exif_directory(true));
            push_datetime(&mut out, original);
            push_datetime(&mut out, d);
        },
    }
    assert(out@ =~= tiff_blob(original@, text::slice_of(digitized)));
    Some(out)
}

/// The bytes that stand in a JPEG between the length of an APP1 segment and
/// its TIFF blob: `Exif` and two NULs.
pub open spec fn exif_prefix() -> Seq<u8> {
    seq![0x45u8, 0x78u8, 0x69u8, 0x66u8, 0u8, 0u8]
}

/// The length field of an APP1 segment: its two bytes, the prefix and the
/// blob, held to what 16 bits can say.
pub open spec fn app1_length(blob: int) -> int {
    if blob + 8 <= 0xffff {
        blob + 8
    } else {
        0xffff
    }
}

/// The APP1 (Exif) segment around a TIFF blob.
pub open spec fn app1_segment(tiff: Seq<u8>) -> Seq<u8> {
    let length = app1_length(tiff.len() as int);
    seq![0xFFu8, 0xE1u8, (length / 256) as u8, (length % 256) as u8] + exif_prefix() + tiff
}

/// Appends `from` onwards of a slice of bytes.
fn push_bytes(buf: &mut Vec<u8>, bytes: &[u8], from: usize)
    requires
        from <= bytes@.len(),
    ensures
        final(buf)@ == old(buf)@ + bytes@.skip(from as int),
{
    let mut i: usize = from;
    proof {
        assert(buf@ =~= old(buf)@ + bytes@.subrange(from as int, from as int));
    }
    while i < bytes.len()
        invariant
            from <= i <= bytes@.len(),
            buf@ == old(buf)@ + bytes@.subrange(from as int, i as int),
        decreases bytes@.len() - i,
    {
        buf.push(bytes[i]);
        i += 1;
        assert(buf@ =~= old(buf)@ + bytes@.subrange(from as int, i as int));
    }
    assert(bytes@.subrange(from as int, bytes@.len() as int) =~= bytes@.skip(from as int));
}

/// Builds a complete JPEG APP1 (Exif) segment: the `FF E1` marker, a
/// big-endian length, the `Exif` prefix, and the TIFF.
pub fn jpeg_app1(tiff: &[u8]) -> (r: Vec<u8>)
    ensures
        r@ == app1_segment(tiff@),
{
    let length: usize = if tiff.len() <= 0xffff - 8 {
        tiff.len() + 8
    } else {
        0xffff
    };
    let mut app1: Vec<u8> = Vec::new();
    app1.push(0xFF);
    app1.push(0xE1);
    app1.push((length / 256) as u8);
    app1.push((length % 256) as u8);
    app1.push(0x45);
    app1.push(0x78);
    app1.push(0x69);
    app1.push(0x66);
    app1.push(0);
    app1.push(0);
    push_bytes(&mut app1, tiff, 0);
    assert(app1@ =~= app1_segment(tiff@));
    app1
}

/// Whether a stream begins with the marker that every JPEG begins with.
pub open spec fn starts_with_soi(stream: Seq<u8>) -> bool {
    stream.len() >= 2 && stream[0] == 0xFF && stream[1] == 0xD8
}

/// A JPEG stream with a segment put right behind its first marker; any other
/// stream as it is.
pub open spec fn spliced(stream: Seq<u8>, segment: Seq<u8>) -> Seq<u8> {
    if starts_with_soi(stream) {
        stream.take(2) + segment + stream.skip(2)
    } else {
        stream
    }
}

/// Inserts `segment` immediately after the JPEG SOI marker. Returns the stream
/// unchanged when it does not start with `FF D8`.
pub fn splice_after_soi(stream: &[u8], segment: &[u8]) -> (r: Vec<u8>)
    ensures
        r@ == spliced(stream@, segment@),
{
    let mut out: Vec<u8> = Vec::new();
    if stream.len() < 2 || stream[0] != 0xFF || stream[1] != 0xD8 {
        push_bytes(&mut out, stream, 0);
        assert(out@ =~= stream@);
        return out;
    }
    out.push(stream[0]);
    out.push(stream[1]);
    push_bytes(&mut out, segment, 0);
    push_bytes(&mut out, stream, 2);
    assert(out@ =~= spliced(stream@, segment@));
    out
}

/// The text of an EXIF value that has the datetime shape, with one NUL at its
/// end left off.
pub open spec fn datetime_text(bytes: Seq<u8>) -> Option<Seq<char>> {
    let body = if bytes.len() > 0 && bytes.last() == 0 {
        bytes.drop_last()
    } else {
        bytes
    };
    let chars = Seq::new(body.len(), |i: int| body[i] as char);
    if exif_shape(chars) {
        Some(chars)
    } else {
        None
    }
}

/// Reads the bytes of an EXIF ASCII value as a datetime: one trailing NUL is
/// dropped, and anything but the exact datetime shape is refused.
pub fn datetime_from_ascii(bytes: &[u8]) -> (r: Option<String>)
    ensures
        text::text_of(r) == datetime_text(bytes@),
{
    let mut end: usize = bytes.len();
    if end > 0 && bytes[end - 1] == 0 {
        end = end - 1;
    }
    let ghost body = if bytes@.len() > 0 && bytes@.last() == 0 {
        bytes@.drop_last()
    } else {
        bytes@
    };
    assert(body =~= bytes@.take(end as int));
    let mut out: String = String::new();
    let mut i: usize = 0;
    while i < end
        invariant
            i <= end <= bytes@.len(),
            out@ == Seq::new(i as nat, |j: int| bytes@[j] as char),
        decreases end - i,
    {
        out.push(bytes[i] as char);
        assert(out@ =~= Seq::new((i + 1) as nat, |j: int| bytes@[j] as char));
        i += 1;
    }
    assert(out@ =~= Seq::new(body.len(), |j: int| body[j] as char));
    if is_exif_datetime(out.as_str()) {
        Some(out)
    } else {
        None
    }
}

/// The ASCII bytes of the primary `DateTimeOriginal` that the `exif` crate
/// finds in an image file, if it finds one.
pub uninterp spec fn date_time_original(container: Seq<u8>) -> Option<Seq<u8>>;

/// The bytes inside an optional vector.
pub open spec fn bytes_of(o: Option<Vec<u8>>) -> Option<Seq<u8>> {
    match o {
        Some(v) => Some(v@),
        None => None,
    }
}

/// Whether datetimes can be stamped: both have the EXIF shape.
pub open spec fn stampable(original: Seq<char>, digitized: Option<Seq<char>>) -> bool {
    exif_shape(original) && (digitized is Some ==> exif_shape(digitized.unwrap()))
}

/// The number in four bytes, the most significant first.
pub open spec fn be32_at(b: Seq<u8>, i: int) -> int {
    b[i] * 0x100_0000 + b[i + 1] * 0x1_0000 + b[i + 2] * 0x100 + b[i + 3]
}

/// The contents of the first `eXIf` chunk of a series of PNG chunks: each has a
/// length, a type, as many bytes as the length says, and four bytes more.
pub open spec fn first_exif_chunk(b: Seq<u8>, at: int) -> Option<Seq<u8>>
    decreases b.len() - at,
{
    if at < 0 || at + 8 > b.len() {
        None
    } else {
        let end = at + 8 + be32_at(b, at);
        if end > b.len() {
            None
        } else if b.subrange(at + 4, at + 8) == seq![0x65u8, 0x58u8, 0x49u8, 0x66u8] {
            Some(b.subrange(at + 8, end))
        } else if end + 4 <= b.len() {
            first_exif_chunk(b, end + 4)
        } else {
            None
        }
    }
}

/// Whether a PNG file has an EXIF blob in its first `eXIf` chunk.
pub open spec fn png_carries(container: Seq<u8>, tiff: Seq<u8>) -> bool {
    &&& seq![0x89u8, 0x50u8, 0x4Eu8, 0x47u8, 0x0Du8, 0x0Au8, 0x1Au8, 0x0Au8].is_prefix_of(container)
    &&& first_exif_chunk(container, 8) == Some(tiff)
}

/// Whether a JPEG stream has an EXIF blob in a segment right behind its first
/// marker.
pub open spec fn jpeg_carries(container: Seq<u8>, tiff: Seq<u8>) -> bool {
    (seq![0xFFu8, 0xD8u8] + app1_segment(tiff)).is_prefix_of(container)
}

/// Whether a file is an EXIF blob, or a JPEG or PNG file that has the blob where
/// readers look for it.
pub open spec fn carries(container: Seq<u8>, tiff: Seq<u8>) -> bool {
    container == tiff || jpeg_carries(container, tiff) || png_carries(container, tiff)
}

/// Asks `exif::Reader::read_from_container` and `Exif::get_field` for the
/// primary `DateTimeOriginal` of an image file held in memory, and hands out
/// its ASCII parts joined. The same file always gives the same answer. Of a
/// file that is a blob made here, a JPEG stream with such a blob in its first
/// segment, or a PNG file with one in its first `eXIf` chunk, the reader takes
/// the blob as TIFF, follows the pointer in its first directory to the Exif
/// directory, and finds the datetime there, without the NUL that ends it. Of
/// other files nothing more is said.
#[verifier::external_body]
fn read_date_time_original(container: &[u8]) -> (r: Option<Vec<u8>>)
    ensures
        bytes_of(r) == date_time_original(container@),
        forall|original: Seq<char>, digitized: Option<Seq<char>>|
            stampable(original, digitized) && carries(
                container@,
                #[trigger] tiff_blob(original, digitized),
            ) ==> bytes_of(r) == Some(ascii_value(original).drop_last()),
{
    let mut cursor = std::io::Cursor::new(container);
    let data = exif::Reader::new().read_from_container(&mut cursor).ok()?;
    let field = data.get_field(exif::Tag::DateTimeOriginal, exif::In::PRIMARY)?;
    match &field.value {
        exif::Value::Ascii(parts) => Some(parts.concat()),
        _ => None,
    }
}

/// The text of a stamped datetime is the datetime.
proof fn datetime_of_ascii(original: Seq<char>)
    requires
        exif_shape(original),
    ensures
        datetime_text(ascii_value(original).drop_last()) == Some(original),
{
    let bytes = ascii_value(original).drop_last();
    assert(bytes.len() == original.len());
    assert forall|i: int| 0 <= i < bytes.len() implies bytes[i] != 0 && bytes[i] as char
        == original[i] by {
        assert(exif_char(i, original[i]));
    }
    assert(Seq::new(bytes.len(), |i: int| bytes[i] as char) =~= original);
}

/// Reads the `DateTimeOriginal` of an image file, given by its bytes, as its
/// raw EXIF text `YYYY:MM:DD HH:MM:SS`, so the value can be embedded verbatim
/// in an exported blob. A file that carries a blob gives the datetime that the
/// blob was made from. `None` when the file lacks the tag, or its value is
/// not the exact datetime shape.
pub fn raw_datetime_original(container: &[u8]) -> (r: Option<String>)
    ensures
        text::text_of(r) == (match date_time_original(container@) {
            Some(bytes) => datetime_text(bytes),
            None => None,
        }),
        forall|original: Seq<char>, digitized: Option<Seq<char>>|
            stampable(original, digitized) && carries(
                container@,
                #[trigger] tiff_blob(original, digitized),
            ) ==> text::text_of(r) == Some(original),
{
    proof {
        assert forall|original: Seq<char>| exif_shape(original) implies #[trigger] datetime_text(
            ascii_value(original).drop_last(),
        ) == Some(original) by {
            datetime_of_ascii(original);
        }
    }
    match read_date_time_original(container) {
        Some(bytes) => datetime_from_ascii(bytes.as_slice()),
        None => None,
    }
}

/// A date and an offset have one EXIF notation only.
pub proof fn shift_is_unique(start: (u32, u32, u32), offset: nat, a: Seq<char>, b: Seq<char>)
    requires
        is_shifted(start, offset, a),
        is_shifted(start, offset, b),
    ensures
        a == b,
{
    let (y1, m1, d1) = choose|year: nat, month: nat, day: nat|
        #![trigger stamp(year, month, day, offset % 86_400)]
        {
            &&& dates::is_date(year as int, month as int, day as int)
            &&& dates::day_number(year, month as int, day as int) == dates::day_number(
                start.0 as nat,
                start.1 as int,
                start.2 as int,
            ) + offset / 86_400
            &&& a == stamp(year, month, day, offset % 86_400)
        };
    let (y2, m2, d2) = choose|year: nat, month: nat, day: nat|
        #![trigger stamp(year, month, day, offset % 86_400)]
        {
            &&& dates::is_date(year as int, month as int, day as int)
            &&& dates::day_number(year, month as int, day as int) == dates::day_number(
                start.0 as nat,
                start.1 as int,
                start.2 as int,
            ) + offset / 86_400
            &&& b == stamp(year, month, day, offset % 86_400)
        };
    dates::day_number_is_injective(y1, m1 as int, d1 as int, y2, m2 as int, d2 as int);
}

/// The little-endian 16-bit number at position `i`.
pub open spec fn u16_at(b: Seq<u8>, i: int) -> int {
    b[i] as int + 256 * (b[i + 1] as int)
}

/// The little-endian 32-bit number at position `i`.
pub open spec fn u32_at(b: Seq<u8>, i: int) -> int {
    u16_at(b, i) + 65_536 * u16_at(b, i + 2)
}

/// Where the entry of a tag stands among the `n` entries from position `i` on.
pub open spec fn entry_of(b: Seq<u8>, i: int, n: int, tag: int) -> Option<int>
    decreases n,
{
    if n <= 0 {
        None
    } else if u16_at(b, i) == tag {
        Some(i)
    } else {
        entry_of(b, i + 12, n - 1, tag)
    }
}

/// Where the entry of a tag stands in the directory at position `ifd`.
pub open spec fn directory_entry(b: Seq<u8>, ifd: int, tag: int) -> Option<int> {
    entry_of(b, ifd + 2, u16_at(b, ifd), tag)
}

/// What a TIFF reader gets for an ASCII tag of the Exif directory: it goes to
/// the first directory, follows the Exif pointer, and takes as many bytes as
/// the tag's entry counts, from where the entry points to.
pub open spec fn exif_value(b: Seq<u8>, tag: int) -> Option<Seq<u8>> {
    match directory_entry(b, u32_at(b, 4), 0x8769) {
        None => None,
        Some(pointer) => match directory_entry(b, u32_at(b, pointer + 8), tag) {
            None => None,
            Some(entry) => Some(
                b.subrange(u32_at(b, entry + 8), u32_at(b, entry + 8) + u32_at(b, entry + 4)),
            ),
        },
    }
}

/// A TIFF reader resolves the blob into the very datetimes that went into it,
/// each with its NUL, and finds no digitization time where none was given.
pub proof fn tiff_reads_back_what_was_written(original: Seq<char>, digitized: Option<Seq<char>>)
    requires
        exif_shape(original),
        digitized is Some ==> exif_shape(digitized.unwrap()),
    ensures
        exif_value(tiff_blob(original, digitized), 0x9003) == Some(ascii_value(original)),
        exif_value(tiff_blob(original, digitized), 0x9004) == (match digitized {
            Some(d) => Some(ascii_value(d)),
            None => None,
        }),
{
    reveal_with_fuel(entry_of, 3);
    let head = tiff_head();
    let both = digitized is Some;
    let dir = exif_directory(both);
    let values = exif_values(original, digitized);
    let b = tiff_blob(original, digitized);
    head_numbers();
    directory_numbers(both);
    assert forall|i: int| 0 <= i < 26 implies b[i] == head[i] by {}
    assert forall|i: int| 0 <= i < dir.len() implies b[26 + i] == dir[i] by {}
    assert(u32_at(b, 4) == u32_at(head, 4));
    assert(u16_at(b, 8) == u16_at(head, 8));
    assert(u16_at(b, 10) == u16_at(head, 10));
    assert(u32_at(b, 18) == u32_at(head, 18));
    assert(u16_at(b, 26) == u16_at(dir, 0));
    assert(u16_at(b, 28) == u16_at(dir, 2));
    assert(u32_at(b, 32) == u32_at(dir, 6));
    assert(u32_at(b, 36) == u32_at(dir, 10));
    let start: int = 26 + dir.len() as int;
    assert(b.subrange(start, start + 20) =~= values.take(20));
    assert(values.take(20) =~= ascii_value(original));
    if let Some(d) = digitized {
        assert(u16_at(b, 40) == u16_at(dir, 14));
        assert(u32_at(b, 44) == u32_at(dir, 18));
        assert(u32_at(b, 48) == u32_at(dir, 22));
        assert(b.subrange(76, 96) =~= values.subrange(20, 40));
        assert(values.subrange(20, 40) =~= ascii_value(d));
    }
}

/// The numbers in the head of the blob.
proof fn head_numbers()
    ensures
        tiff_head().len() == 26,
        u32_at(tiff_head(), 4) == 8,
        u16_at(tiff_head(), 8) == 1,
        u16_at(tiff_head(), 10) == 0x8769,
        u32_at(tiff_head(), 18) == 26,
{
}

/// The numbers in the Exif directory.
proof fn directory_numbers(both: bool)
    ensures
        exif_directory(both).len() == (if both {
            30int
        } else {
            18
        }),
        u16_at(exif_directory(both), 0) == (if both {
            2int
        } else {
            1
        }),
        u16_at(exif_directory(both), 2) == 0x9003,
        u32_at(exif_directory(both), 6) == 20,
        u32_at(exif_directory(both), 10) == (if both {
            56int
        } else {
            44
        }),
        both ==> u16_at(exif_directory(both), 14) == 0x9004,
        both ==> u32_at(exif_directory(both), 18) == 20,
        both ==> u32_at(exif_directory(both), 22) == 76,
{
}

/// A stamped JPEG still begins with its first marker, carries the APP1 segment
/// right behind it, and a reader that skips the segment by its own length
/// field is back in the stream as it was.
pub proof fn stamping_adds_one_segment(stream: Seq<u8>, tiff: Seq<u8>)
    requires
        starts_with_soi(stream),
        tiff.len() + 8 <= 0xffff,
    ensures
        starts_with_soi(spliced(stream, app1_segment(tiff))),
        spliced(stream, app1_segment(tiff)).subrange(2, 12 + tiff.len() as int) == app1_segment(tiff),
        spliced(stream, app1_segment(tiff)).skip(
            4 + 256 * (app1_segment(tiff)[2] as int) + app1_segment(tiff)[3] as int,
        ) == stream.skip(2),
        app1_segment(tiff).skip(10) == tiff,
{
    let out = spliced(stream, app1_segment(tiff));
    let length = app1_length(tiff.len() as int);
    assert(app1_segment(tiff)[2] == (length / 256) as u8);
    assert(256 * (app1_segment(tiff)[2] as int) + app1_segment(tiff)[3] as int == length);
    assert(out.subrange(2, 12 + tiff.len() as int) =~= app1_segment(tiff));
    assert(out.skip(2 + 2 + length) =~= stream.skip(2));
    assert(app1_segment(tiff).skip(10) =~= tiff);
}

/// A stream that is no JPEG is left alone by the splice.
pub proof fn only_jpegs_are_stamped(stream: Seq<u8>, segment: Seq<u8>)
    requires
        !starts_with_soi(stream),
    ensures
        spliced(stream, segment) == stream,
{
}

/// The two characters of a number below a hundred.
pub proof fn pair_of(n: nat)
    requires
        n < 100,
    ensures
        text::zero_padded(text::decimal(n), 2) == seq![
            text::digit_char((n / 10) as int),
            text::digit_char((n % 10) as int),
        ],
{
    reveal_with_fuel(text::decimal, 3);
    reveal_with_fuel(text::zero_padded, 3);
    assert(text::zero_padded(text::decimal(n), 2) =~= seq![
        text::digit_char((n / 10) as int),
        text::digit_char((n % 10) as int),
    ]);
}

/// The four characters of a number below ten thousand.
proof fn quad_of(n: nat)
    requires
        n < 10_000,
    ensures
        text::zero_padded(text::decimal(n), 4) == seq![
            text::digit_char((n / 1000) as int),
            text::digit_char((n / 100 % 10) as int),
            text::digit_char((n / 10 % 10) as int),
            text::digit_char((n % 10) as int),
        ],
{
    reveal_with_fuel(text::decimal, 5);
    reveal_with_fuel(text::zero_padded, 5);
    assert(text::zero_padded(text::decimal(n), 4) =~= seq![
        text::digit_char((n / 1000) as int),
        text::digit_char((n / 100 % 10) as int),
        text::digit_char((n / 10 % 10) as int),
        text::digit_char((n % 10) as int),
    ]);
}

/// The characters of the date in a stamp of a four-digit year.
proof fn stamp_date(year: nat, month: nat, day: nat, seconds: nat)
    requires
        year < 10_000,
        month < 100,
        day < 100,
        seconds < 86_400,
    ensures
        stamp(year, month, day, seconds).len() == 19,
        stamp(year, month, day, seconds)[0] as int == '0' as int + year / 1000,
        stamp(year, month, day, seconds)[1] as int == '0' as int + year / 100 % 10,
        stamp(year, month, day, seconds)[2] as int == '0' as int + year / 10 % 10,
        stamp(year, month, day, seconds)[3] as int == '0' as int + year % 10,
        stamp(year, month, day, seconds)[4] == ':',
        stamp(year, month, day, seconds)[5] as int == '0' as int + month / 10,
        stamp(year, month, day, seconds)[6] as int == '0' as int + month % 10,
        stamp(year, month, day, seconds)[7] == ':',
        stamp(year, month, day, seconds)[8] as int == '0' as int + day / 10,
        stamp(year, month, day, seconds)[9] as int == '0' as int + day % 10,
        stamp(year, month, day, seconds)[10] == ' ',
{
    reveal(stamp);
    quad_of(year);
    pair_of(month);
    pair_of(day);
    pair_of(seconds / 3600);
    pair_of(seconds % 3600 / 60);
    pair_of(seconds % 60);
}

/// The characters of the time in a stamp of a four-digit year.
proof fn stamp_time(year: nat, month: nat, day: nat, seconds: nat)
    requires
        year < 10_000,
        month < 100,
        day < 100,
        seconds < 86_400,
    ensures
        stamp(year, month, day, seconds).len() == 19,
        stamp(year, month, day, seconds)[11] as int == '0' as int + seconds / 3600 / 10,
        stamp(year, month, day, seconds)[12] as int == '0' as int + seconds / 3600 % 10,
        stamp(year, month, day, seconds)[13] == ':',
        stamp(year, month, day, seconds)[14] as int == '0' as int + seconds % 3600 / 60 / 10,
        stamp(year, month, day, seconds)[15] as int == '0' as int + seconds % 3600 / 60 % 10,
        stamp(year, month, day, seconds)[16] == ':',
        stamp(year, month, day, seconds)[17] as int == '0' as int + seconds % 60 / 10,
        stamp(year, month, day, seconds)[18] as int == '0' as int + seconds % 60 % 10,
{
    reveal(stamp);
    quad_of(year);
    pair_of(month);
    pair_of(day);
    pair_of(seconds / 3600);
    pair_of(seconds % 3600 / 60);
    pair_of(seconds % 60);
}

/// Every stamp of a four-digit year has the EXIF datetime shape, so
/// [`build_tiff`] takes it.
pub proof fn stamps_have_the_exif_shape(year: nat, month: nat, day: nat, seconds: nat)
    requires
        year < 10_000,
        dates::is_date(year as int, month as int, day as int),
        seconds < 86_400,
    ensures
        exif_shape(stamp(year, month, day, seconds)),
{
    stamp_date(year, month, day, seconds);
    stamp_time(year, month, day, seconds);
    let s = stamp(year, month, day, seconds);
    assert forall|i: int| 0 <= i < 19 implies exif_char(i, #[trigger] s[i]) by {}
}

/// A stamp of an earlier moment comes first in the order of texts, so files
/// sorted by their stamps are in the order of their frames.
pub proof fn stamps_sort_by_time(
    a: (u32, u32, u32),
    seconds_a: nat,
    b: (u32, u32, u32),
    seconds_b: nat,
)
    requires
        dates::is_date(a.0 as int, a.1 as int, a.2 as int),
        dates::is_date(b.0 as int, b.1 as int, b.2 as int),
        a.0 < 10_000,
        b.0 < 10_000,
        seconds_a < 86_400,
        seconds_b < 86_400,
        dates::day_number(a.0 as nat, a.1 as int, a.2 as int) < dates::day_number(
            b.0 as nat,
            b.1 as int,
            b.2 as int,
        ) || (a == b && seconds_a < seconds_b),
    ensures
        text::text_lt(
            stamp(a.0 as nat, a.1 as nat, a.2 as nat, seconds_a),
            stamp(b.0 as nat, b.1 as nat, b.2 as nat, seconds_b),
        ),
{
    dates::day_number_follows_the_calendar(a, b);
    if a == b {
        later_second_sorts_later(a, seconds_a, seconds_b);
    } else {
        later_day_sorts_later(a, seconds_a, b, seconds_b);
    }
}

#[verifier::spinoff_prover]
proof fn later_day_sorts_later(
    a: (u32, u32, u32),
    seconds_a: nat,
    b: (u32, u32, u32),
    seconds_b: nat,
)
    requires
        a.0 < 10_000,
        b.0 < 10_000,
        a.1 < 100,
        b.1 < 100,
        a.2 < 100,
        b.2 < 100,
        seconds_a < 86_400,
        seconds_b < 86_400,
        dates::date_le(a, b),
        a != b,
    ensures
        text::text_lt(
            stamp(a.0 as nat, a.1 as nat, a.2 as nat, seconds_a),
            stamp(b.0 as nat, b.1 as nat, b.2 as nat, seconds_b),
        ),
{
    stamp_date(a.0 as nat, a.1 as nat, a.2 as nat, seconds_a);
    stamp_date(b.0 as nat, b.1 as nat, b.2 as nat, seconds_b);
    let s = stamp(a.0 as nat, a.1 as nat, a.2 as nat, seconds_a);
    let t = stamp(b.0 as nat, b.1 as nat, b.2 as nat, seconds_b);
    let (y, z) = (a.0 as nat, b.0 as nat);
    if y < z {
        year_digits_follow_years(y, z);
        if y / 1000 < z / 1000 {
            dates::first_difference(s, t, 0);
        } else if y / 100 % 10 < z / 100 % 10 {
            dates::first_difference(s, t, 1);
        } else if y / 10 % 10 < z / 10 % 10 {
            dates::first_difference(s, t, 2);
        } else {
            dates::first_difference(s, t, 3);
        }
    } else if a.1 < b.1 {
        digits_follow_numbers(a.1 as nat, b.1 as nat);
        if a.1 / 10 < b.1 / 10 {
            dates::first_difference(s, t, 5);
        } else {
            dates::first_difference(s, t, 6);
        }
    } else {
        digits_follow_numbers(a.2 as nat, b.2 as nat);
        if a.2 / 10 < b.2 / 10 {
            dates::first_difference(s, t, 8);
        } else {
            dates::first_difference(s, t, 9);
        }
    }
}

/// Of two years the earlier has the smaller first digit, or the same and the
/// smaller second one, and so on.
proof fn year_digits_follow_years(y: nat, z: nat)
    requires
        y < z < 10_000,
    ensures
        ({
            ||| y / 1000 < z / 1000
            ||| y / 1000 == z / 1000 && y / 100 % 10 < z / 100 % 10
            ||| y / 1000 == z / 1000 && y / 100 % 10 == z / 100 % 10 && y / 10 % 10 < z / 10 % 10
            ||| y / 1000 == z / 1000 && y / 100 % 10 == z / 100 % 10 && y / 10 % 10 == z / 10 % 10
                && y % 10 < z % 10
        }),
{
}

/// Of two numbers below a hundred the smaller has the smaller first digit, or
/// the same and the smaller second one.
proof fn digits_follow_numbers(p: nat, q: nat)
    requires
        p < q < 100,
    ensures
        p / 10 < q / 10 || (p / 10 == q / 10 && p % 10 < q % 10),
{
}

/// Of two times of day the earlier has the smaller hour, or the same and the
/// smaller minute, or both the same and the smaller second.
proof fn clock_follows_seconds(a: nat, b: nat)
    requires
        a < b < 86_400,
    ensures
        b / 3600 < 24,
        b % 3600 / 60 < 60,
        ({
            ||| a / 3600 < b / 3600
            ||| a / 3600 == b / 3600 && a % 3600 / 60 < b % 3600 / 60
            ||| a / 3600 == b / 3600 && a % 3600 / 60 == b % 3600 / 60 && a % 60 < b % 60
        }),
{
}

#[verifier::spinoff_prover]
proof fn later_second_sorts_later(a: (u32, u32, u32), seconds_a: nat, seconds_b: nat)
    requires
        a.0 < 10_000,
        a.1 < 100,
        a.2 < 100,
        seconds_a < seconds_b < 86_400,
    ensures
        text::text_lt(
            stamp(a.0 as nat, a.1 as nat, a.2 as nat, seconds_a),
            stamp(a.0 as nat, a.1 as nat, a.2 as nat, seconds_b),
        ),
{
    stamp_date(a.0 as nat, a.1 as nat, a.2 as nat, seconds_a);
    stamp_date(a.0 as nat, a.1 as nat, a.2 as nat, seconds_b);
    stamp_time(a.0 as nat, a.1 as nat, a.2 as nat, seconds_a);
    stamp_time(a.0 as nat, a.1 as nat, a.2 as nat, seconds_b);
    clock_follows_seconds(seconds_a, seconds_b);
    let s = stamp(a.0 as nat, a.1 as nat, a.2 as nat, seconds_a);
    let t = stamp(a.0 as nat, a.1 as nat, a.2 as nat, seconds_b);
    let (h, i) = (seconds_a / 3600, seconds_b / 3600);
    let (m, n) = (seconds_a % 3600 / 60, seconds_b % 3600 / 60);
    let (x, y) = (seconds_a % 60, seconds_b % 60);
    if h < i {
        digits_follow_numbers(h, i);
        if h / 10 < i / 10 {
            dates::first_difference(s, t, 11);
        } else {
            dates::first_difference(s, t, 12);
        }
    } else if m < n {
        digits_follow_numbers(m, n);
        if m / 10 < n / 10 {
            dates::first_difference(s, t, 14);
        } else {
            dates::first_difference(s, t, 15);
        }
    } else {
        digits_follow_numbers(x, y);
        if x / 10 < y / 10 {
            dates::first_difference(s, t, 17);
        } else {
            dates::first_difference(s, t, 18);
        }
    }
}

} // verus!
