//! The frame-info drawer: reading a frame's EXIF, and the rows that show it.

use vstd::prelude::*;
use crate::exif_writer;
use crate::message::FrameMeta;
use crate::state;
use crate::state::{AppModel, Model};
use crate::text;

verus! {

/// What the `exif` crate shows of a primary field of an image file: nothing
/// where it cannot read the file, and an absent text where the file lacks the
/// field. The flag tells the fields of the EXIF directory from those of the
/// image's own.
pub uninterp spec fn exif_field(container: Seq<u8>, in_exif: bool, number: u16) -> Option<
    Option<Seq<char>>,
>;

/// The texts inside an answer.
pub open spec fn answer_of(o: Option<Option<String>>) -> Option<Option<Seq<char>>> {
    match o {
        Some(field) => Some(text::text_of(field)),
        None => None,
    }
}

/// Asks `exif::Reader::read_from_container` and `Exif::get_field` for a primary
/// field of an image file held in memory, and has `Field::display_value` make a
/// text of it. Nothing is said of how a file holds its fields or how they are
/// shown, only that the same file always gives the same answer.
#[verifier::external_body]
fn read_field(container: &[u8], in_exif: bool, number: u16) -> (r: Option<Option<String>>)
    ensures
        answer_of(r) == exif_field(container@, in_exif, number),
{
    let mut cursor = std::io::Cursor::new(container);
    let data = exif::Reader::new().read_from_container(&mut cursor).ok()?;
    let context = match in_exif {
        true => exif::Context::Exif,
        false => exif::Context::Tiff,
    };
    let field = data.get_field(exif::Tag(context, number), exif::In::PRIMARY);
    Some(field.map(|f| f.display_value().to_string()))
}

/// A field of a file that can be read.
pub open spec fn field_text(container: Seq<u8>, in_exif: bool, number: u16) -> Option<Seq<char>> {
    match exif_field(container, in_exif, number) {
        Some(field) => field,
        None => None,
    }
}

/// A field of the EXIF directory.
pub open spec fn exif_text(container: Seq<u8>, number: u16) -> Option<Seq<char>> {
    field_text(container, true, number)
}

/// A field of the image's own directory.
pub open spec fn image_text(container: Seq<u8>, number: u16) -> Option<Seq<char>> {
    field_text(container, false, number)
}

/// The first text of two that is there.
pub open spec fn either(a: Option<Seq<char>>, b: Option<Seq<char>>) -> Option<Seq<char>> {
    if a is Some {
        a
    } else {
        b
    }
}

fn field(container: &[u8], in_exif: bool, number: u16) -> (r: Option<String>)
    ensures
        text::text_of(r) == field_text(container@, in_exif, number),
{
    match read_field(container, in_exif, number) {
        Some(field) => field,
        None => None,
    }
}

/// A dimension of the picture: the image's own field, or else the pixel
/// dimension that the EXIF directory records.
fn dimension(container: &[u8], image: u16, pixel: u16) -> (r: Option<String>)
    ensures
        text::text_of(r) == either(image_text(container@, image), exif_text(container@, pixel)),
{
    match field(container, false, image) {
        Some(value) => Some(value),
        None => field(container, true, pixel),
    }
}

impl FrameMeta {
    /// Whether this is the readout of an image file.
    pub open spec fn reads(self, container: Seq<u8>) -> bool {
        &&& text::text_of(self.width) == either(
            image_text(container, 0x100),
            exif_text(container, 0xa002),
        )
        &&& text::text_of(self.height) == either(
            image_text(container, 0x101),
            exif_text(container, 0xa003),
        )
        &&& text::text_of(self.make) == image_text(container, 0x10f)
        &&& text::text_of(self.model) == image_text(container, 0x110)
        &&& text::text_of(self.iso) == exif_text(container, 0x8827)
        &&& text::text_of(self.exposure) == exif_text(container, 0x829a)
        &&& text::text_of(self.aperture) == exif_text(container, 0x829d)
        &&& text::text_of(self.focal) == exif_text(container, 0x920a)
        &&& text::text_of(self.lens) == exif_text(container, 0xa434)
        &&& text::text_of(self.date) == exif_text(container, 0x9003)
    }
}

/// Reads the basic EXIF readout of an image file, given by its bytes. `None`
/// for files that the EXIF reader cannot parse.
pub fn load_frame_meta(container: &[u8]) -> (r: Option<FrameMeta>)
    ensures
        r is Some <==> exif_field(container@, false, 0x100) is Some,
        r is Some ==> r.unwrap().reads(container@),
{
    let readable: bool = read_field(container, false, 0x100).is_some();
    if !readable {
        return None;
    }
    Some(
        FrameMeta {
            width: dimension(container, 0x100, 0xa002),
            height: dimension(container, 0x101, 0xa003),
            make: field(container, false, 0x10f),
            model: field(container, false, 0x110),
            iso: field(container, true, 0x8827),
            exposure: field(container, true, 0x829a),
            aperture: field(container, true, 0x829d),
            focal: field(container, true, 0x920a),
            lens: field(container, true, 0xa434),
            date: field(container, true, 0x9003),
        },
    )
}

/// A row of the frame-info drawer.
#[derive(Debug)]
pub enum InfoRow {
    /// The capture time that an export stamps.
    OriginalDate(String),
    Dimensions { width: String, height: String },
    Camera(String),
    Iso(String),
    Exposure(String),
    Aperture(String),
    Focal(String),
    Lens(String),
    Date(String),
    /// The file's metadata could not be read.
    Unavailable,
    /// The file's metadata is still being read.
    Loading,
}

/// What a row shows.
#[verifier::ext_equal]
pub enum InfoRowModel {
    OriginalDate(Seq<char>),
    Dimensions { width: Seq<char>, height: Seq<char> },
    Camera(Seq<char>),
    Iso(Seq<char>),
    Exposure(Seq<char>),
    Aperture(Seq<char>),
    Focal(Seq<char>),
    Lens(Seq<char>),
    Date(Seq<char>),
    Unavailable,
    Loading,
}

impl InfoRow {
    /// The model of a row.
    pub open spec fn model(self) -> InfoRowModel {
        match self {
            InfoRow::OriginalDate(s) => InfoRowModel::OriginalDate(s@),
            InfoRow::Dimensions { width, height } => InfoRowModel::Dimensions {
                width: width@,
                height: height@,
            },
            InfoRow::Camera(s) => InfoRowModel::Camera(s@),
            InfoRow::Iso(s) => InfoRowModel::Iso(s@),
            InfoRow::Exposure(s) => InfoRowModel::Exposure(s@),
            InfoRow::Aperture(s) => InfoRowModel::Aperture(s@),
            InfoRow::Focal(s) => InfoRowModel::Focal(s@),
            InfoRow::Lens(s) => InfoRowModel::Lens(s@),
            InfoRow::Date(s) => InfoRowModel::Date(s@),
            InfoRow::Unavailable => InfoRowModel::Unavailable,
            InfoRow::Loading => InfoRowModel::Loading,
        }
    }
}

/// The models of rows.
pub open spec fn row_models(rows: Seq<InfoRow>) -> Seq<InfoRowModel> {
    rows.map_values(|r: InfoRow| r.model())
}

/// Rows with one more, where there is something for it to show.
pub open spec fn followed(
    rows: Seq<InfoRowModel>,
    value: Option<Seq<char>>,
    row: spec_fn(Seq<char>) -> InfoRowModel,
) -> Seq<InfoRowModel> {
    match value {
        Some(v) => rows.push(row(v)),
        None => rows,
    }
}

/// The camera: make and model, as far as they are known.
pub open spec fn camera(make: Option<Seq<char>>, model: Option<Seq<char>>) -> Option<Seq<char>> {
    let name = match (make, model) {
        (Some(a), Some(b)) => a + seq![' '] + b,
        (Some(a), None) => a,
        (None, Some(b)) => b,
        (None, None) => Seq::empty(),
    };
    if name.len() == 0 {
        None
    } else {
        Some(name)
    }
}

/// The rows of a readout: one for each thing that the file has.
pub open spec fn meta_rows(meta: FrameMeta) -> Seq<InfoRowModel> {
    let size = match (meta.width, meta.height) {
        (Some(w), Some(h)) => seq![InfoRowModel::Dimensions { width: w@, height: h@ }],
        _ => Seq::empty(),
    };
    let a = followed(
        size,
        camera(text::text_of(meta.make), text::text_of(meta.model)),
        |s: Seq<char>| InfoRowModel::Camera(s),
    );
    let b = followed(a, text::text_of(meta.iso), |s: Seq<char>| InfoRowModel::Iso(s));
    let c = followed(b, text::text_of(meta.exposure), |s: Seq<char>| InfoRowModel::Exposure(s));
    let d = followed(c, text::text_of(meta.aperture), |s: Seq<char>| InfoRowModel::Aperture(s));
    let e = followed(d, text::text_of(meta.focal), |s: Seq<char>| InfoRowModel::Focal(s));
    let f = followed(e, text::text_of(meta.lens), |s: Seq<char>| InfoRowModel::Lens(s));
    followed(f, text::text_of(meta.date), |s: Seq<char>| InfoRowModel::Date(s))
}

impl Model {
    /// The capture time that an export stamps on a frame: the roll's start date
    /// and as many seconds as the frame's place in the roll.
    pub open spec fn stamp_of(self, name: Seq<char>) -> Option<Seq<char>> {
        match (self.roll.start_date, self.tile_at(name)) {
            (Some(start), Some(k)) => exif_writer::shifted(start, k as nat),
            _ => None,
        }
    }

    /// The rows for a frame of the open roll: first the capture time that an
    /// export stamps, where the roll has a start date, then what the file has.
    pub open spec fn info_rows(self, name: Seq<char>) -> Seq<InfoRowModel> {
        let lead = match self.stamp_of(name) {
            Some(date) => seq![InfoRowModel::OriginalDate(date)],
            None => Seq::empty(),
        };
        let rest = match self.tile_at(name) {
            Some(k) => match self.tiles[k].meta {
                Some(meta) => meta_rows(meta),
                None => if self.tiles[k].meta_failed {
                    seq![InfoRowModel::Unavailable]
                } else {
                    seq![InfoRowModel::Loading]
                },
            },
            None => seq![InfoRowModel::Loading],
        };
        lead + rest
    }
}

fn camera_text(make: &Option<String>, model: &Option<String>) -> (r: Option<String>)
    ensures
        text::text_of(r) == camera(text::text_of(*make), text::text_of(*model)),
{
    let name: String = match (make, model) {
        (Some(a), Some(b)) => {
            let mut s: String = a.clone();
            s.push(' ');
            s.push_str(b.as_str());
            assert(s@ =~= a@ + seq![' '] + b@);
            s
        },
        (Some(a), None) => a.clone(),
        (None, Some(b)) => b.clone(),
        (None, None) => {
            let s: String = String::new();
            assert(s@ =~= Seq::<char>::empty());
            s
        },
    };
    let chars: Vec<char> = text::chars_of(name.as_str());
    if chars.len() == 0 {
        None
    } else {
        Some(name)
    }
}

/// Adds a row.
fn add_row(rows: &mut Vec<InfoRow>, row: InfoRow)
    ensures
        row_models(final(rows)@) == row_models(old(rows)@).push(row.model()),
{
    let ghost before = rows@;
    rows.push(row);
    assert(row_models(rows@) =~= row_models(before).push(row.model()));
}

/// The rows of a readout.
fn rows_of(meta: &FrameMeta) -> (r: Vec<InfoRow>)
    ensures
        row_models(r@) == meta_rows(*meta),
{
    let mut rows: Vec<InfoRow> = Vec::new();
    assert(row_models(rows@) =~= Seq::<InfoRowModel>::empty());
    match (&meta.width, &meta.height) {
        (Some(w), Some(h)) => {
            add_row(&mut rows, InfoRow::Dimensions { width: w.clone(), height: h.clone() });
            assert(row_models(rows@) =~= seq![
                InfoRowModel::Dimensions { width: w@, height: h@ },
            ]);
        },
        _ => {},
    }
    match camera_text(&meta.make, &meta.model) {
        Some(s) => add_row(&mut rows, InfoRow::Camera(s)),
        None => {},
    }
    match &meta.iso {
        Some(s) => add_row(&mut rows, InfoRow::Iso(s.clone())),
        None => {},
    }
    match &meta.exposure {
        Some(s) => add_row(&mut rows, InfoRow::Exposure(s.clone())),
        None => {},
    }
    match &meta.aperture {
        Some(s) => add_row(&mut rows, InfoRow::Aperture(s.clone())),
        None => {},
    }
    match &meta.focal {
        Some(s) => add_row(&mut rows, InfoRow::Focal(s.clone())),
        None => {},
    }
    match &meta.lens {
        Some(s) => add_row(&mut rows, InfoRow::Lens(s.clone())),
        None => {},
    }
    match &meta.date {
        Some(s) => add_row(&mut rows, InfoRow::Date(s.clone())),
        None => {},
    }
    rows
}

impl AppModel {
    /// The capture time that an export stamps on a frame of the open roll: the
    /// roll's start date and as many seconds as the frame's place in the roll.
    pub fn frame_stamp(&self, name: &str) -> (r: Option<String>)
        ensures
            text::text_of(r) == self@.stamp_of(name@),
    {
        match (&self.roll.start_date, state::find_tile(self.tiles.as_slice(), name)) {
            (Some(start), Some(k)) => exif_writer::shifted_datetime(start.as_str(), k),
            _ => None,
        }
    }

    /// The rows of the frame-info drawer for a frame of the open roll.
    pub fn frame_info_rows(&self, name: &str) -> (r: Vec<InfoRow>)
        ensures
            row_models(r@) == self@.info_rows(name@),
    {
        let dated: Option<String> = self.frame_stamp(name);
        let mut rows: Vec<InfoRow> = Vec::new();
        match dated {
            Some(s) => {
                rows.push(InfoRow::OriginalDate(s));
                assert(row_models(rows@) =~= seq![InfoRowModel::OriginalDate(s@)]);
            },
            None => {
                assert(row_models(rows@) =~= Seq::<InfoRowModel>::empty());
            },
        }
        let ghost lead = row_models(rows@);
        let mut rest: Vec<InfoRow> = match state::find_tile(self.tiles.as_slice(), name) {
            Some(k) => {
                assert(self@.tiles[k as int] == self.tiles@[k as int].model());
                match &self.tiles[k].meta {
                    Some(meta) => rows_of(meta),
                    None => {
                        let mut v: Vec<InfoRow> = Vec::new();
                        if self.tiles[k].meta_failed {
                            v.push(InfoRow::Unavailable);
                            assert(row_models(v@) =~= seq![InfoRowModel::Unavailable]);
                        } else {
                            v.push(InfoRow::Loading);
                            assert(row_models(v@) =~= seq![InfoRowModel::Loading]);
                        }
                        v
                    },
                }
            },
            None => {
                let mut v: Vec<InfoRow> = Vec::new();
                v.push(InfoRow::Loading);
                assert(row_models(v@) =~= seq![InfoRowModel::Loading]);
                v
            },
        };
        let ghost tail = row_models(rest@);
        let ghost head = rows@;
        let ghost more = rest@;
        rows.append(&mut rest);
        proof {
            assert(rows@ =~= head + more);
            assert(row_models(rows@) =~= lead + tail);
        }
        rows
    }
}

} // verus!
