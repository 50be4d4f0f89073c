//! Exporting a roll's frames to JPEG or PNG: the format, size and preset
//! options, file naming (plain, dated, roll-hashed), the batch's bookkeeping,
//! and the encoders.

use vstd::prelude::*;
use vstd::string::*;
use vstd::utf8::*;
use crate::dates;
use crate::edit_manifest::CropMargins;
use crate::error::FrameError;
use crate::exif_writer;
use crate::paths;
use crate::raster;
use crate::text;

verus! {

/// A curated export preset: the default combination of format, quality and
/// size for a destination.
#[derive(Clone, Copy, Debug, PartialEq, Eq, Structural)]
pub enum ExportPreset {
    /// JPEG, quality 90, native resolution.
    Cloud,
    /// Lossless 16-bit PNG at native resolution.
    Master,
    /// JPEG, quality 82, long edge capped at 2048 px.
    Web,
}

impl ExportPreset {
    /// The message that labels the preset, over its variants.
    pub open spec fn label(self) -> Seq<char> {
        match self {
            ExportPreset::Cloud => "export-choice-jpeg-90"@,
            ExportPreset::Web => "export-choice-jpeg-82"@,
            ExportPreset::Master => "export-choice-png-16"@,
        }
    }

    /// The identifier of the localized message that labels the preset in the
    /// dialog's format dropdown.
    pub fn choice_label(self) -> (r: &'static str)
        ensures
            r@ == self.label(),
    {
        match self {
            ExportPreset::Cloud => "export-choice-jpeg-90",
            ExportPreset::Web => "export-choice-jpeg-82",
            ExportPreset::Master => "export-choice-png-16",
        }
    }
}

/// The export container format.
#[derive(Clone, Copy, Debug, PartialEq, Eq, Structural)]
pub enum ExportFormat {
    Jpeg,
    Png,
}

impl ExportFormat {
    /// The file name extension, over the formats.
    pub open spec fn extension(self) -> Seq<char> {
        match self {
            ExportFormat::Jpeg => "jpg"@,
            ExportFormat::Png => "png"@,
        }
    }

    /// The file name extension for the format (`jpg` / `png`).
    pub fn ext(self) -> (r: &'static str)
        ensures
            r@ == self.extension(),
    {
        match self {
            ExportFormat::Jpeg => "jpg",
            ExportFormat::Png => "png",
        }
    }
}

/// Long-edge limit for the export decode.
#[derive(Clone, Copy, Debug, PartialEq, Eq, Structural)]
pub enum ExportSize {
    Original,
    LongEdge2048,
}

impl Default for ExportSize {
    fn default() -> (r: Self)
        ensures
            r == ExportSize::Original,
    {
        ExportSize::Original
    }
}

impl ExportSize {
    /// The target long edge in pixels, or `0` for native resolution.
    pub fn long_edge(self) -> (r: u32)
        ensures
            r == (match self {
                ExportSize::Original => 0u32,
                ExportSize::LongEdge2048 => 2048u32,
            }),
    {
        match self {
            ExportSize::Original => 0,
            ExportSize::LongEdge2048 => 2048,
        }
    }

    /// The long edge that the decoder is asked to stay within, over the sizes.
    pub open spec fn limit(self) -> u32 {
        match self {
            ExportSize::Original => u32::MAX,
            ExportSize::LongEdge2048 => 2048u32,
        }
    }

    /// The long edge that the decoder is asked to stay within; native
    /// resolution asks for no limit.
    pub fn decode_limit(self) -> (r: u32)
        ensures
            r == self.limit(),
            r == (match self {
                ExportSize::Original => u32::MAX,
                ExportSize::LongEdge2048 => 2048u32,
            }),
    {
        let edge: u32 = self.long_edge();
        if edge == 0 {
            u32::MAX
        } else {
            edge
        }
    }
}

/// The full export parameter set: seeded by a preset, then adjustable until
/// the export starts.
#[derive(Clone, Copy, Debug, PartialEq, Eq, Structural)]
pub struct ExportOptions {
    pub format: ExportFormat,
    pub quality: u8,
    pub size: ExportSize,
    /// Pixel density tagged in the output header; 0 writes none.
    pub ppi: u16,
    /// Whether an existing output file is replaced.
    pub overwrite: bool,
}

impl ExportOptions {
    /// The options that a preset stands for.
    pub open spec fn of_preset(preset: ExportPreset) -> ExportOptions {
        match preset {
            ExportPreset::Cloud => ExportOptions {
                format: ExportFormat::Jpeg,
                quality: 90,
                size: ExportSize::Original,
                ppi: 300,
                overwrite: false,
            },
            ExportPreset::Master => ExportOptions {
                format: ExportFormat::Png,
                quality: 100,
                size: ExportSize::Original,
                ppi: 300,
                overwrite: false,
            },
            ExportPreset::Web => ExportOptions {
                format: ExportFormat::Jpeg,
                quality: 82,
                size: ExportSize::LongEdge2048,
                ppi: 72,
                overwrite: false,
            },
        }
    }

    /// The options a preset imports, and the exact combination the dialog's
    /// format dropdown restores for its key.
    pub fn for_preset(preset: ExportPreset) -> (r: ExportOptions)
        ensures
            r == Self::of_preset(preset),
    {
        match preset {
            ExportPreset::Cloud => ExportOptions {
                format: ExportFormat::Jpeg,
                quality: 90,
                size: ExportSize::Original,
                ppi: 300,
                overwrite: false,
            },
            ExportPreset::Master => ExportOptions {
                format: ExportFormat::Png,
                quality: 100,
                size: ExportSize::Original,
                ppi: 300,
                overwrite: false,
            },
            ExportPreset::Web => ExportOptions {
                format: ExportFormat::Jpeg,
                quality: 82,
                size: ExportSize::LongEdge2048,
                ppi: 72,
                overwrite: false,
            },
        }
    }

    /// Returns a copy with the overwrite flag set and all else as it was.
    pub fn with_overwrite(self, overwrite: bool) -> (r: ExportOptions)
        ensures
            r == (ExportOptions { overwrite, ..self }),
    {
        ExportOptions { overwrite, ..self }
    }
}

/// The preset that a key of the dialog's format choice stands for; unknown
/// keys stand for the first preset.
pub open spec fn preset_for_choice(key: Seq<char>) -> ExportPreset {
    if key == "jpeg-82"@ {
        ExportPreset::Web
    } else if key == "png-16"@ {
        ExportPreset::Master
    } else {
        ExportPreset::Cloud
    }
}

/// Resolves a key returned by the dialog's format choice back into the export
/// options that key stands for. Unknown keys fall back to the first preset.
pub fn options_for_choice(key: &str) -> (r: ExportOptions)
    ensures
        r == ExportOptions::of_preset(preset_for_choice(key@)),
{
    if text::same_text(key, "jpeg-82") {
        ExportOptions::for_preset(ExportPreset::Web)
    } else if text::same_text(key, "png-16") {
        ExportOptions::for_preset(ExportPreset::Master)
    } else {
        ExportOptions::for_preset(ExportPreset::Cloud)
    }
}

/// The dropdown entries of the dialog's format choice: key and label, in
/// order.
pub fn format_choices() -> (r: [(&'static str, &'static str); 3])
    ensures
        r@[0].0@ == "jpeg-90"@ && r@[0].1@ == ExportPreset::Cloud.label(),
        r@[1].0@ == "jpeg-82"@ && r@[1].1@ == ExportPreset::Web.label(),
        r@[2].0@ == "png-16"@ && r@[2].1@ == ExportPreset::Master.label(),
{
    [
        ("jpeg-90", ExportPreset::Cloud.choice_label()),
        ("jpeg-82", ExportPreset::Web.choice_label()),
        ("png-16", ExportPreset::Master.choice_label()),
    ]
}

/// A character with the letters of ASCII made small.
pub open spec fn lower(c: char) -> char {
    if 'A' as int <= c as int <= 'Z' as int {
        (c as int + 32) as char
    } else {
        c
    }
}

/// What follows the last dot of a name, in small letters.
pub open spec fn lowered_extension(name: Seq<char>) -> Option<Seq<char>> {
    let dot = paths::last_dot(name);
    if dot < 0 {
        None
    } else {
        Some(name.skip(dot + 1).map_values(|c: char| lower(c)))
    }
}

/// Whether a name ends in one of the extensions the exporter writes, in any
/// mix of small and capital letters.
pub open spec fn export_artifact(name: Seq<char>) -> bool {
    lowered_extension(name) == Some("jpg"@) || lowered_extension(name) == Some("jpeg"@)
        || lowered_extension(name) == Some("png"@)
}

/// A text with the letters of ASCII made small, from character `from` on.
fn lowered(chars: &[char], from: usize) -> (r: String)
    requires
        from <= chars@.len(),
    ensures
        r@ == chars@.skip(from as int).map_values(|c: char| lower(c)),
{
    let mut out: String = String::new();
    let mut i: usize = from;
    while i < chars.len()
        invariant
            from <= i <= chars@.len(),
            out@ == chars@.subrange(from as int, i as int).map_values(|c: char| lower(c)),
        decreases chars@.len() - i,
    {
        let c: char = chars[i];
        if c >= 'A' && c <= 'Z' {
            let small: u8 = (c as u8) + 32;
            out.push(small as char);
        } else {
            out.push(c);
        }
        i += 1;
        assert(out@ =~= chars@.subrange(from as int, i as int).map_values(|c: char| lower(c)));
    }
    assert(out@ =~= chars@.skip(from as int).map_values(|c: char| lower(c)));
    out
}

/// A text with the letters of ASCII made small.
pub(crate) fn ascii_lowercase(s: &str) -> (r: String)
    ensures
        r@ == s@.map_values(|c: char| lower(c)),
{
    let chars: Vec<char> = text::chars_of(s);
    let out: String = lowered(chars.as_slice(), 0);
    assert(chars@.skip(0) =~= s@);
    out
}

/// Whether `name` looks like an output of the exporter (JPEG or PNG) rather
/// than a source negative, so a roll exported into its own folder does not
/// show its outputs back as frames.
pub fn is_export_artifact(name: &str) -> (r: bool)
    ensures
        r == export_artifact(name@),
{
    let chars: Vec<char> = text::chars_of(name);
    let mut dot: usize = chars.len();
    assert(chars@.take(chars@.len() as int) =~= chars@);
    while dot > 0 && chars[dot - 1] != '.'
        invariant
            dot <= chars@.len(),
            paths::last_dot(chars@.take(dot as int)) == paths::last_dot(chars@),
        decreases dot,
    {
        assert(chars@.take(dot as int).drop_last() =~= chars@.take(dot - 1));
        dot = dot - 1;
    }
    if dot == 0 {
        return false;
    }
    let ext: String = lowered(chars.as_slice(), dot);
    text::same_text(ext.as_str(), "jpg") || text::same_text(ext.as_str(), "jpeg")
        || text::same_text(ext.as_str(), "png")
}

/// The exported file name for a frame: the source file name with its extension
/// replaced by the format's. A file name with no extension simply gains the
/// extension; a hidden leading dot is part of the stem.
pub fn export_name(name: &str, format: ExportFormat) -> (r: String)
    ensures
        r@ == paths::extension_set(name@, format.extension()),
{
    paths::with_extension(name, format.ext())
}

/// The FNV-1a hash of some bytes.
pub open spec fn fnv1a(bytes: Seq<u8>) -> u32
    decreases bytes.len(),
{
    if bytes.len() == 0 {
        0x811c_9dc5
    } else {
        ((fnv1a(bytes.drop_last()) ^ (bytes.last() as u32)) as int * 0x0100_0193
            % 0x1_0000_0000) as u32
    }
}

/// The character of a hexadecimal digit.
pub open spec fn hex_char(n: int) -> char {
    if n < 10 {
        ('0' as int + n) as char
    } else {
        ('a' as int + n - 10) as char
    }
}

/// The six hexadecimal digits of the low 24 bits of a number.
pub open spec fn six_hex(h: int) -> Seq<char> {
    seq![
        hex_char(h / 0x10_0000 % 16),
        hex_char(h / 0x1_0000 % 16),
        hex_char(h / 0x1000 % 16),
        hex_char(h / 0x100 % 16),
        hex_char(h / 0x10 % 16),
        hex_char(h % 16),
    ]
}

/// The fingerprint of a directory, given by its path's text: that of the
/// plain spelling, so that it is the same however the path is spelled.
pub open spec fn directory_hash(dir: Seq<char>) -> Seq<char> {
    six_hex(fnv1a(encode_utf8(paths::tidied(dir))) as int)
}

fn hex_digit(n: u32) -> (c: char)
    requires
        n < 16,
    ensures
        c == hex_char(n as int),
{
    if n < 10 {
        let b: u8 = 48 + (n as u8);
        b as char
    } else {
        let b: u8 = 87 + (n as u8);
        b as char
    }
}

/// A deterministic fingerprint of a roll's directory of six hexadecimal
/// characters: FNV-1a over the bytes of the path's plain spelling, cut to 24
/// bits. Fixed-width, so file names built from it sort lexicographically; the
/// same directory, however it is spelled, has the same one.
pub fn roll_hash(dir: &str) -> (r: String)
    ensures
        r@ == directory_hash(dir@),
{
    let plain: String = paths::tidy(dir);
    let bytes: &[u8] = plain.as_str().as_bytes();
    let mut hash: u32 = 0x811c_9dc5;
    let mut i: usize = 0;
    assert(bytes@.take(0) =~= Seq::<u8>::empty());
    while i < bytes.len()
        invariant
            i <= bytes@.len(),
            hash == fnv1a(bytes@.take(i as int)),
        decreases bytes@.len() - i,
    {
        assert(bytes@.take(i + 1).drop_last() =~= bytes@.take(i as int));
        hash = hash ^ (bytes[i] as u32);
        hash = hash.wrapping_mul(0x0100_0193);
        i += 1;
    }
    assert(bytes@.take(bytes@.len() as int) =~= bytes@);
    let mut out: String = String::new();
    out.push(hex_digit(hash / 0x10_0000 % 16));
    out.push(hex_digit(hash / 0x1_0000 % 16));
    out.push(hex_digit(hash / 0x1000 % 16));
    out.push(hex_digit(hash / 0x100 % 16));
    out.push(hex_digit(hash / 0x10 % 16));
    out.push(hex_digit(hash % 16));
    assert(out@ =~= six_hex(hash as int));
    out
}

/// The stem of a dated export name: `YYYYMMDD-<roll-hash>-<frame>`, the frame
/// counted from one and padded to two digits.
pub open spec fn dated_stem(start: Seq<char>, index: nat, hash: Seq<char>) -> Seq<char> {
    start.subrange(0, 4) + start.subrange(5, 7) + start.subrange(8, 10) + seq!['-'] + hash + seq![
        '-',
    ] + text::zero_padded(text::decimal(index + 1), 2)
}

/// The dated export file name for a frame of a dated roll:
/// `YYYYMMDD-<roll-hash>-<frame>.<ext>`, where `YYYYMMDD` is the roll's start
/// date, `<roll-hash>` is the roll's [`roll_hash`], and `<frame>` is the
/// frame's 1-based full-roll position padded to two digits. `None` when
/// `start_iso` is not exactly `YYYY-MM-DD` or the position does not fit a
/// 16-bit frame number.
pub fn dated_export_name(
    format: ExportFormat,
    start_iso: &str,
    index: usize,
    roll_hash: &str,
) -> (r: Option<String>)
    ensures
        text::text_of(r) == (if dates::iso_shape(start_iso@) && index + 1 <= u16::MAX {
            Some(
                paths::extension_set(
                    dated_stem(start_iso@, index as nat, roll_hash@),
                    format.extension(),
                ),
            )
        } else {
            None
        }),
{
    let iso: Vec<char> = text::chars_of(start_iso);
    if !dates::has_iso_shape(iso.as_slice()) || index >= 65_535 {
        return None;
    }
    let mut stem: String = text::text_from(iso.as_slice(), 0, 4);
    stem.push_str(text::text_from(iso.as_slice(), 5, 7).as_str());
    stem.push_str(text::text_from(iso.as_slice(), 8, 10).as_str());
    stem.push('-');
    stem.push_str(roll_hash);
    stem.push('-');
    stem.push_str(text::padded_text((index + 1) as u64, 2).as_str());
    assert(stem@ =~= dated_stem(start_iso@, index as nat, roll_hash@));
    Some(paths::with_extension(stem.as_str(), format.ext()))
}

/// The name beside `dest` that an export is first written under.
pub open spec fn temp_name(dest: Seq<char>) -> Seq<char> {
    paths::file_name_set(
        dest,
        (match paths::file_name(dest) {
            Some(n) => n,
            None => "export"@,
        }) + ".tmp"@,
    )
}

/// A same-directory sibling for an atomic export write: the encode goes to
/// `dest`'s `.tmp` neighbor and is renamed over `dest` once it is fully on
/// disk.
pub fn temp_export_path(dest: &str) -> (r: String)
    ensures
        r@ == temp_name(dest@),
{
    let mut name: String = match paths::file_name_of(dest) {
        Some(n) => n,
        None => "export".to_owned(),
    };
    name.push_str(".tmp");
    paths::with_file_name(dest, name.as_str())
}

/// The path that a frame is exported to: below the destination, under its
/// dated name where the roll's start date gives one, else under its plain
/// name.
pub open spec fn target_path(
    dest: Seq<char>,
    name: Seq<char>,
    index: nat,
    start: Option<Seq<char>>,
    format: ExportFormat,
    hash: Seq<char>,
) -> Seq<char> {
    paths::joined(
        dest,
        if start is Some && dates::iso_shape(start.unwrap()) && index + 1 <= u16::MAX {
            paths::extension_set(dated_stem(start.unwrap(), index, hash), format.extension())
        } else {
            paths::extension_set(name, format.extension())
        },
    )
}

/// The path that one frame of a batch is exported to.
pub fn export_target(
    dest: &str,
    name: &str,
    index: usize,
    start_date: Option<&str>,
    format: ExportFormat,
    roll_hash: &str,
) -> (r: String)
    ensures
        r@ == target_path(
            dest@,
            name@,
            index as nat,
            text::slice_of(start_date),
            format,
            roll_hash@,
        ),
{
    let dated: Option<String> = match start_date {
        Some(start) => dated_export_name(format, start, index, roll_hash),
        None => None,
    };
    let leaf: String = match dated {
        Some(n) => n,
        None => export_name(name, format),
    };
    paths::join(dest, leaf.as_str())
}

/// What became of one frame of an export batch.
#[derive(Clone, Copy, Debug, PartialEq, Eq, Structural)]
pub enum FrameOutcome {
    Written,
    Skipped,
    Failed,
}

/// The running counts of an export batch.
#[derive(Clone, Copy, Debug, PartialEq, Eq, Structural)]
pub struct ExportTally {
    pub ok: usize,
    pub skipped: usize,
    pub failed: usize,
    pub done: usize,
    pub total: usize,
}

impl ExportTally {
    /// Every frame that is done has exactly one outcome, and no more frames
    /// are done than the batch has.
    pub open spec fn counts_agree(self) -> bool {
        self.ok + self.skipped + self.failed == self.done && self.done <= self.total
    }

    /// The counts at the start of a batch of `total` frames.
    pub fn new(total: usize) -> (r: ExportTally)
        ensures
            r == (ExportTally { ok: 0, skipped: 0, failed: 0, done: 0, total }),
            r.counts_agree(),
    {
        ExportTally { ok: 0, skipped: 0, failed: 0, done: 0, total }
    }

    /// Counts one more frame, and gives the progress to report.
    pub fn record(&mut self, outcome: FrameOutcome) -> (r: (usize, usize))
        requires
            old(self).counts_agree(),
            old(self).done < old(self).total,
        ensures
            final(self).counts_agree(),
            final(self).total == old(self).total,
            final(self).done == old(self).done + 1,
            final(self).ok == old(self).ok + (if outcome is Written {
                1int
            } else {
                0
            }),
            final(self).skipped == old(self).skipped + (if outcome is Skipped {
                1int
            } else {
                0
            }),
            final(self).failed == old(self).failed + (if outcome is Failed {
                1int
            } else {
                0
            }),
            r == (final(self).done, final(self).total),
    {
        match outcome {
            FrameOutcome::Written => {
                self.ok = self.ok + 1;
            },
            FrameOutcome::Skipped => {
                self.skipped = self.skipped + 1;
            },
            FrameOutcome::Failed => {
                self.failed = self.failed + 1;
            },
        }
        self.done = self.done + 1;
        (self.done, self.total)
    }
}

/// Whether a frame is left alone: with overwrite off, an output that is
/// already there is kept as it is.
pub fn keeps_existing(options: ExportOptions, target_exists: bool) -> (r: bool)
    ensures
        r == (!options.overwrite && target_exists),
{
    !options.overwrite && target_exists
}

/// What happens to a frame, given whether its target is there and whether
/// writing it succeeds.
pub open spec fn outcome_of(options: ExportOptions, exists_already: bool, written: bool)
    -> FrameOutcome {
    if !options.overwrite && exists_already {
        FrameOutcome::Skipped
    } else if written {
        FrameOutcome::Written
    } else {
        FrameOutcome::Failed
    }
}

/// The outcome to count for a frame. `written` says whether the export of a
/// frame that was not kept succeeded.
pub fn frame_outcome(options: ExportOptions, target_exists: bool, written: bool) -> (r:
    FrameOutcome)
    ensures
        r == outcome_of(options, target_exists, written),
{
    if keeps_existing(options, target_exists) {
        FrameOutcome::Skipped
    } else if written {
        FrameOutcome::Written
    } else {
        FrameOutcome::Failed
    }
}

/// The EXIF blob of an exported frame. There is none for an undated roll, and
/// where a time has no EXIF notation.
pub open spec fn stamp_of(
    start_date: Option<Seq<char>>,
    index: nat,
    digitized: Option<Seq<char>>,
) -> Option<Seq<u8>> {
    match start_date {
        Some(start) => match exif_writer::shifted(start, index) {
            Some(original) if exif_writer::exif_shape(original) && (digitized is Some
                ==> exif_writer::exif_shape(digitized.unwrap())) => Some(
                exif_writer::tiff_blob(original, digitized),
            ),
            _ => None,
        },
        None => None,
    }
}

/// The EXIF blob that stamps an exported frame: the roll's start date at
/// midnight plus one second for each frame before it, and the frame's own scan
/// time where it has one.
pub fn export_stamp(start_date: Option<&str>, index: usize, digitized: Option<&str>) -> (r: Option<
    Vec<u8>,
>)
    ensures
        r is Some <==> stamp_of(
            text::slice_of(start_date),
            index as nat,
            text::slice_of(digitized),
        ) is Some,
        r is Some ==> stamp_of(
            text::slice_of(start_date),
            index as nat,
            text::slice_of(digitized),
        ) == Some(r.unwrap()@),
{
    let start: &str = match start_date {
        Some(s) => s,
        None => {
            return None;
        },
    };
    match exif_writer::shifted_datetime(start, index) {
        None => None,
        Some(original) => exif_writer::build_tiff(original.as_str(), digitized),
    }
}

/// The luminance channel of interleaved four-channel samples: the first sample
/// of each group.
pub open spec fn first_of_four<T>(rgba: Seq<T>) -> Seq<T> {
    Seq::new(((rgba.len() + 3) / 4) as nat, |i: int| rgba[4 * i])
}

/// Drops a monochrome frame's equal channels to one.
fn luminance8(rgba: &[u8]) -> (r: Vec<u8>)
    ensures
        r@ == first_of_four(rgba@),
{
    let mut gray: Vec<u8> = Vec::new();
    let mut i: usize = 0;
    let len: usize = rgba.len();
    while i < len
        invariant
            len == rgba@.len(),
            i % 4 == 0,
            i <= len || (i < len + 4 && i / 4 == (len + 3) / 4),
            gray@.len() == i / 4,
            forall|j: int| 0 <= j < gray@.len() ==> #[trigger] gray@[j] == rgba@[4 * j],
        decreases len - i,
    {
        gray.push(rgba[i]);
        if len - i <= 4 {
            assert(gray@ =~= first_of_four(rgba@));
            return gray;
        }
        i += 4;
    }
    assert(gray@ =~= first_of_four(rgba@));
    gray
}

/// The big-endian bytes of 16-bit samples.
pub open spec fn big_endian(samples: Seq<u16>) -> Seq<u8> {
    Seq::new(
        2 * samples.len(),
        |i: int|
            if i % 2 == 0 {
                (samples[i / 2] / 256) as u8
            } else {
                (samples[i / 2] % 256) as u8
            },
    )
}

/// Drops a monochrome 16-bit frame's equal channels to one, in the byte order
/// that PNG stores.
fn luminance16(rgba: &[u16]) -> (r: Vec<u8>)
    ensures
        r@ == big_endian(first_of_four(rgba@)),
{
    let mut gray: Vec<u8> = Vec::new();
    let ghost want = first_of_four(rgba@);
    let mut i: usize = 0;
    let len: usize = rgba.len();
    while i < len
        invariant
            len == rgba@.len(),
            want == first_of_four(rgba@),
            i % 4 == 0,
            i <= len,
            gray@ == big_endian(want.take(i as int / 4)),
            i / 4 <= want.len(),
        decreases len - i,
    {
        let sample: u16 = rgba[i];
        gray.push((sample / 256) as u8);
        gray.push((sample % 256) as u8);
        let ghost k: int = i as int / 4;
        assert(want[k] == sample);
        assert(gray@ =~= big_endian(want.take(k + 1)));
        if len - i <= 4 {
            assert(want.take(k + 1) =~= want);
            return gray;
        }
        i += 4;
    }
    assert(want.take(len as int / 4) =~= want);
    gray
}

/// The JPEG stream that the `jpeg-encoder` crate makes of 8-bit luminance
/// samples.
pub uninterp spec fn jpeg_stream(
    gray: Seq<u8>,
    width: u16,
    height: u16,
    quality: u8,
    ppi: Option<u16>,
) -> Seq<u8>;

/// Whether there are enough samples for an image of these sides, neither of
/// them zero.
pub open spec fn jpeg_fits(samples: int, width: int, height: int) -> bool {
    width != 0 && height != 0 && samples >= width * height
}

/// The density that a header tags: none where the options ask for zero.
pub open spec fn tagged_density(ppi: u16) -> Option<u16> {
    if ppi != 0 {
        Some(ppi)
    } else {
        None
    }
}

/// Encodes luminance samples with `jpeg_encoder::Encoder::encode` into memory,
/// after `Encoder::set_density` where a density is given. It succeeds exactly
/// when neither side is zero and there are enough samples, and every stream
/// begins with the JPEG marker `FF D8`; what follows is left to the name.
#[verifier::external_body]
fn encode_jpeg(
    gray: &[u8],
    width: u16,
    height: u16,
    quality: u8,
    ppi: Option<u16>,
) -> (r: Option<Vec<u8>>)
    ensures
        r is Some == jpeg_fits(gray@.len() as int, width as int, height as int),
        r is Some ==> r.unwrap()@ == jpeg_stream(gray@, width, height, quality, ppi),
        r is Some ==> exif_writer::starts_with_soi(r.unwrap()@),
{
    let mut bytes = Vec::new();
    let mut encoder = jpeg_encoder::Encoder::new(&mut bytes, quality);
    if let Some(dpi) = ppi {
        encoder.set_density(jpeg_encoder::PixelDensity::dpi(dpi));
    }
    encoder.encode(gray, width, height, jpeg_encoder::ColorType::Luma).ok()?;
    Some(bytes)
}

/// A frame of four samples a place has one luminance sample for each place.
proof fn one_of_four<T>(rgba: Seq<T>, width: int, height: int)
    requires
        rgba.len() == 4 * (width * height),
    ensures
        first_of_four(rgba).len() == width * height,
{
}

/// Why a JPEG export of a picture of these sides fails.
pub open spec fn jpeg_failure(width: int, height: int) -> Option<Seq<char>> {
    if width > u16::MAX || height > u16::MAX {
        Some("export dimensions exceed the JPEG format's limits"@)
    } else if width == 0 || height == 0 {
        Some("JPEG encode failed"@)
    } else {
        None
    }
}

/// The bytes of a JPEG export: the encoder's stream, with the EXIF blob spliced
/// in where there is one.
pub open spec fn jpeg_file(
    gray: Seq<u8>,
    width: int,
    height: int,
    exif_tiff: Option<Seq<u8>>,
    options: ExportOptions,
) -> Seq<u8> {
    let stream = jpeg_stream(
        gray,
        width as u16,
        height as u16,
        options.quality,
        tagged_density(options.ppi),
    );
    match exif_tiff {
        None => stream,
        Some(tiff) => exif_writer::spliced(stream, exif_writer::app1_segment(tiff)),
    }
}

/// The bytes inside an optional slice.
pub open spec fn slice_bytes(o: Option<&[u8]>) -> Option<Seq<u8>> {
    match o {
        Some(s) => Some(s@),
        None => None,
    }
}

/// Makes the bytes of a quality-`options` JPEG out of a frame's interleaved
/// four-channel samples, cropped, turned and cut to a single luminance channel.
/// When `options.ppi` is non-zero the header tags that density; an EXIF blob is
/// spliced in right behind the first marker, where readers find it.
pub fn export_jpeg(
    rgba: Vec<u8>,
    width: u32,
    height: u32,
    crop: CropMargins,
    rotation: u8,
    exif_tiff: Option<&[u8]>,
    options: ExportOptions,
) -> (r: Result<Vec<u8>, FrameError>)
    requires
        rgba@.len() == 4 * (width * height),
    ensures
        ({
            let (baked, across, down) = raster::baked(
                rgba@,
                width as int,
                height as int,
                crop,
                rotation as int,
            );
            match jpeg_failure(across, down) {
                Some(why) => r is Err && r->Err_0 is Export && r->Err_0->Export_message@ == why,
                None => r is Ok && r->Ok_0@ == jpeg_file(
                    first_of_four(baked),
                    across,
                    down,
                    slice_bytes(exif_tiff),
                    options,
                ),
            }
        }),
        r is Ok && exif_tiff is Some ==> exif_writer::carries(r->Ok_0@, exif_tiff.unwrap()@),
{
    let (baked, width, height) = raster::bake_geometry(rgba, width, height, crop, rotation);
    let gray: Vec<u8> = luminance8(baked.as_slice());
    proof {
        one_of_four(baked@, width as int, height as int);
    }
    if width > 65_535 || height > 65_535 {
        return Err(
            FrameError::Export {
                message: "export dimensions exceed the JPEG format's limits".to_owned(),
            },
        );
    }
    let ppi: Option<u16> = if options.ppi != 0 {
        Some(options.ppi)
    } else {
        None
    };
    match encode_jpeg(gray.as_slice(), width as u16, height as u16, options.quality, ppi) {
        None => Err(FrameError::Export { message: "JPEG encode failed".to_owned() }),
        Some(stream) => match exif_tiff {
            None => Ok(stream),
            Some(tiff) => {
                let app1: Vec<u8> = exif_writer::jpeg_app1(tiff);
                let stamped: Vec<u8> = exif_writer::splice_after_soi(
                    stream.as_slice(),
                    app1.as_slice(),
                );
                proof {
                    assert(stream@.take(2) =~= seq![0xFFu8, 0xD8u8]);
                    assert((stream@.take(2) + app1@).is_prefix_of(stamped@));
                }
                Ok(stamped)
            },
        },
    }
}

/// The step at which a PNG could not be written.
#[derive(Clone, Debug)]
pub enum PngFault {
    /// The header was refused, for the reason that the encoder gives.
    Header(String),
    /// The `eXIf` chunk was refused.
    Exif,
    /// The image data was refused.
    Data,
    /// The trailer could not be written.
    Finish,
}

/// The PNG stream that the `png` crate makes of big-endian 16-bit luminance
/// samples, with the given pixels per meter and EXIF blob.
pub uninterp spec fn png_stream(
    gray: Seq<u8>,
    width: u32,
    height: u32,
    density: Option<u32>,
    exif: Option<Seq<u8>>,
) -> Seq<u8>;

/// Whether an EXIF blob is longer than a PNG chunk can be.
pub open spec fn blob_too_long(exif: Option<Seq<u8>>) -> bool {
    exif is Some && exif.unwrap().len() > i32::MAX
}

/// The reason that the `png` crate gives for refusing a header: which of the
/// sides is zero, the width before the height.
pub open spec fn zero_side(width: int) -> Seq<char> {
    if width == 0 {
        "Zero width not allowed"@
    } else {
        "Zero height not allowed"@
    }
}

/// Encodes 16-bit luminance samples with the `png` crate into memory: an sRGB
/// grayscale header with `png::Encoder::write_header`, an `eXIf` chunk with
/// `Writer::write_chunk` where a blob is given, the samples with
/// `Writer::write_image_data`, and the trailer with `Writer::finish`. The
/// header is refused for a side of zero, in the words of the error's `Display`;
/// the chunk when its length does not fit 31 bits, the samples when their number is wrong; in memory nothing else
/// fails. The stream is the PNG signature and a series of chunks, of which a
/// blob's is the only `eXIf` one; all else is left to the name.
#[verifier::external_body]
fn encode_png(
    gray: &[u8],
    width: u32,
    height: u32,
    density: Option<u32>,
    exif: Option<&[u8]>,
) -> (r: Result<Vec<u8>, PngFault>)
    requires
        2 * width as nat * height as nat <= usize::MAX,
    ensures
        (r is Err && r->Err_0 is Header) == (width == 0 || height == 0),
        r is Err && r->Err_0 is Header ==> r->Err_0->Header_0@ == zero_side(width as int),
        (r is Err && r->Err_0 is Exif) == (width != 0 && height != 0 && blob_too_long(
            slice_bytes(exif),
        )),
        (r is Err && r->Err_0 is Data) == (width != 0 && height != 0 && !blob_too_long(
            slice_bytes(exif),
        ) && gray@.len() != 2 * width as nat * height as nat),
        r is Err ==> !(r->Err_0 is Finish),
        r is Ok ==> r->Ok_0@ == png_stream(gray@, width, height, density, slice_bytes(exif)),
        r is Ok && exif is Some ==> exif_writer::png_carries(r->Ok_0@, exif.unwrap()@),
{
    let mut out = Vec::new();
    let mut encoder = png::Encoder::new(&mut out, width, height);
    encoder.set_color(png::ColorType::Grayscale);
    encoder.set_depth(png::BitDepth::Sixteen);
    encoder.set_source_srgb(png::SrgbRenderingIntent::Perceptual);
    let unit = png::Unit::Meter;
    encoder.set_pixel_dims(density.map(|d| png::PixelDimensions { xppu: d, yppu: d, unit }));
    let mut writer = encoder.write_header().map_err(|e| PngFault::Header(e.to_string()))?;
    if let Some(tiff) = exif {
        writer.write_chunk(png::chunk::eXIf, tiff).map_err(|_| PngFault::Exif)?;
    }
    writer.write_image_data(gray).map_err(|_| PngFault::Data)?;
    writer.finish().map_err(|_| PngFault::Finish)?;
    Ok(out)
}

/// Whether a PNG export of a picture of these sides succeeds, and with what
/// message it fails otherwise.
pub open spec fn png_verdict(
    width: int,
    height: int,
    exif: Option<Seq<u8>>,
    r: Result<Vec<u8>, FrameError>,
) -> bool {
    if width == 0 || height == 0 {
        &&& r is Err
        &&& r->Err_0 is Export
        &&& r->Err_0->Export_message@ == "PNG header write failed: "@ + zero_side(width)
    } else if blob_too_long(exif) {
        &&& r is Err
        &&& r->Err_0 is Export
        &&& r->Err_0->Export_message@ == "PNG eXIf chunk write failed"@
    } else {
        r is Ok
    }
}

/// Makes the bytes of a lossless 16-bit grayscale PNG out of a frame's
/// interleaved four-channel samples, cropped, turned and cut to a single
/// luminance channel. A density in pixels per meter is tagged where one is
/// given, and an EXIF blob is carried in an `eXIf` chunk.
pub fn export_png(
    rgba: Vec<u16>,
    width: u32,
    height: u32,
    crop: CropMargins,
    rotation: u8,
    exif_tiff: Option<&[u8]>,
    pixels_per_meter: Option<u32>,
) -> (r: Result<Vec<u8>, FrameError>)
    requires
        rgba@.len() == 4 * (width * height),
    ensures
        ({
            let (baked, across, down) = raster::baked(
                rgba@,
                width as int,
                height as int,
                crop,
                rotation as int,
            );
            &&& png_verdict(across, down, slice_bytes(exif_tiff), r)
            &&& r is Ok ==> r->Ok_0@ == png_stream(
                big_endian(first_of_four(baked)),
                across as u32,
                down as u32,
                pixels_per_meter,
                slice_bytes(exif_tiff),
            )
        }),
        r is Ok && exif_tiff is Some ==> exif_writer::carries(r->Ok_0@, exif_tiff.unwrap()@),
{
    let (baked, width, height) = raster::bake_geometry(rgba, width, height, crop, rotation);
    let total: usize = baked.len();
    let gray: Vec<u8> = luminance16(baked.as_slice());
    proof {
        one_of_four(baked@, width as int, height as int);
        assert(2 * (width as int * height as int) == 2 * width as nat * height as nat)
            by (nonlinear_arith);
        assert(2 * width as nat * height as nat <= total);
    }
    match encode_png(gray.as_slice(), width, height, pixels_per_meter, exif_tiff) {
        Ok(bytes) => Ok(bytes),
        Err(PngFault::Header(why)) => {
            let mut message: String = "PNG header write failed: ".to_owned();
            message.push_str(why.as_str());
            Err(FrameError::Export { message })
        },
        Err(PngFault::Exif) => Err(
            FrameError::Export { message: "PNG eXIf chunk write failed".to_owned() },
        ),
        Err(PngFault::Data) => Err(
            FrameError::Export { message: "PNG image data write failed".to_owned() },
        ),
        Err(PngFault::Finish) => Err(FrameError::Export { message: "PNG finish failed".to_owned() }),
    }
}

/// Every name that a frame is exported under is one the library scan takes for
/// an export, so a roll exported into its own folder never shows its outputs
/// as frames.
pub proof fn exports_are_recognized(name: Seq<char>, format: ExportFormat)
    requires
        paths::file_name(name) is Some,
    ensures
        export_artifact(paths::extension_set(name, format.extension())),
{
    reveal_strlit("jpg");
    reveal_strlit("png");
    let ext = format.extension();
    let t = paths::trimmed(name);
    let n = paths::file_name(name).unwrap();
    let stem = t.take(paths::last_part(t) + paths::stem_length(n));
    paths::last_dot_of_extension(stem, ext);
    let whole = stem + seq!['.'] + ext;
    assert(whole.skip(stem.len() as int + 1) =~= ext);
    assert(ext.map_values(|c: char| lower(c)) =~= ext);
}

/// The temporary file of an export stands in the directory of its destination,
/// under another name, so that renaming it over the destination is atomic and
/// a failed write leaves the destination alone.
pub proof fn temporary_stands_beside_the_destination(dest: Seq<char>)
    requires
        paths::file_name(dest) is Some,
    ensures
        paths::parent(temp_name(dest)) == paths::parent(dest),
        paths::file_name(temp_name(dest)) == Some(paths::file_name(dest).unwrap() + ".tmp"@),
        paths::file_name(temp_name(dest)) != paths::file_name(dest),
{
    reveal_strlit(".tmp");
    let n = paths::file_name(dest).unwrap();
    let name = n + ".tmp"@;
    paths::file_name_has_no_slash(dest);
    assert forall|i: int| 0 <= i < name.len() implies name[i] != '/' by {
        if i < n.len() {
            assert(name[i] == n[i]);
        } else {
            assert(name[i] == ".tmp"@[i - n.len()]);
        }
    }
    assert(name.last() == 'p');
    paths::renamed_file_stays_in_its_directory(dest, name);
    assert(name.len() == n.len() + 4);
}

/// A roll's fingerprint is always six characters long, each a small
/// hexadecimal digit.
pub proof fn roll_hash_is_six_hex_digits(dir: Seq<char>)
    ensures
        directory_hash(dir).len() == 6,
        forall|i: int|
            0 <= i < 6 ==> ('0' as int <= #[trigger] directory_hash(dir)[i] as int <= '9' as int
                || 'a' as int <= directory_hash(dir)[i] as int <= 'f' as int),
{
}

/// Two spellings of one directory give a roll the same fingerprint; slashes at
/// the end of a path are such a difference.
pub proof fn spellings_share_a_fingerprint(a: Seq<char>, b: Seq<char>)
    ensures
        paths::tidied(a) == paths::tidied(b) ==> directory_hash(a) == directory_hash(b),
        a.len() > 0 ==> directory_hash(a.push('/')) == directory_hash(a),
{
    if a.len() > 0 {
        paths::trailing_slash_changes_nothing(a);
    }
}

/// Exports of one day sort by roll first: where two rolls' fingerprints differ,
/// every frame of the one comes before every frame of the other.
pub proof fn dated_names_group_by_roll(
    start: Seq<char>,
    hash_a: Seq<char>,
    index_a: nat,
    hash_b: Seq<char>,
    index_b: nat,
)
    requires
        dates::iso_shape(start),
        hash_a.len() == hash_b.len(),
        text::text_lt(hash_a, hash_b),
    ensures
        text::text_lt(dated_stem(start, index_a, hash_a), dated_stem(start, index_b, hash_b)),
{
    let k = text::difference_of(hash_a, hash_b);
    let a = dated_stem(start, index_a, hash_a);
    let b = dated_stem(start, index_b, hash_b);
    assert forall|i: int| 0 <= i < 9 + k implies a[i] == b[i] by {
        if i >= 9 {
            assert(a[i] == hash_a[i - 9]);
            assert(b[i] == hash_b[i - 9]);
        }
    }
    assert(a[9 + k] == hash_a[k]);
    assert(b[9 + k] == hash_b[k]);
    dates::first_difference(a, b, 9 + k);
}

/// Exports of one roll sort in frame order, up to the ninety-ninth frame.
pub proof fn dated_names_follow_the_frames(
    start: Seq<char>,
    hash: Seq<char>,
    index_a: nat,
    index_b: nat,
)
    requires
        dates::iso_shape(start),
        index_a < index_b < 99,
    ensures
        text::text_lt(dated_stem(start, index_a, hash), dated_stem(start, index_b, hash)),
{
    let a = dated_stem(start, index_a, hash);
    let b = dated_stem(start, index_b, hash);
    exif_writer::pair_of(index_a + 1);
    exif_writer::pair_of(index_b + 1);
    let k: int = 10 + hash.len() as int;
    assert(a[k] as int == '0' as int + (index_a + 1) / 10);
    assert(b[k] as int == '0' as int + (index_b + 1) / 10);
    assert(a[k + 1] as int == '0' as int + (index_a + 1) % 10);
    assert(b[k + 1] as int == '0' as int + (index_b + 1) % 10);
    assert forall|i: int| 0 <= i < k implies a[i] == b[i] by {}
    if (index_a + 1) / 10 == (index_b + 1) / 10 {
        dates::first_difference(a, b, k + 1);
    } else {
        dates::first_difference(a, b, k);
    }
}

} // verus!
