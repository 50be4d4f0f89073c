//! What holds of the data that scans, readouts, measurements and exports give.

use vstd::prelude::*;
use crate::detail_area::{AreaSignal, AreaState, DetailArea, PointerEvent};
use crate::edit_manifest;
use crate::edit_manifest::ManifestModel;
use crate::editing_laws::first_named;
use crate::exif_writer;
use crate::export;
use crate::export::{ExportFormat, ExportOptions, ExportSize, FrameOutcome};
use crate::film;
use crate::film::{BaseMode, FilmPreset};
use crate::frame_info;
use crate::frame_info::InfoRowModel;
use crate::frame_laws::found_tile;
use crate::library::Thumb;
use crate::lru;
use crate::message::FrameMeta;
use crate::paths;
use crate::raster;
use crate::scan;
use crate::scan::DirEntry;
use crate::single::Single;
use crate::state::Model;
use crate::text;

verus! {

/// The frames of a directory are its regular files, without hidden ones and
/// without what an export wrote; nothing else is a frame, and none is missing.
pub proof fn frames_are_the_files(entries: Seq<DirEntry>, name: Seq<char>)
    ensures
        scan::frames_among(entries).contains(name) <==> exists|i: int|
            0 <= i < entries.len() && (#[trigger] entries[i]).name@ == name && entries[i].is_file
                && scan::is_frame(name),
        name.len() > 0 && name[0] == '.' ==> !scan::frames_among(entries).contains(name),
        export::export_artifact(name) ==> !scan::frames_among(entries).contains(name),
    decreases entries.len(),
{
    if entries.len() > 0 {
        let init = entries.drop_last();
        let last = entries.last();
        frames_are_the_files(init, name);
        let found = scan::frames_among(entries);
        let before = scan::frames_among(init);
        let is = |i: int| entries[i].name@ == name && entries[i].is_file && scan::is_frame(name);
        if found.contains(name) {
            let k = choose|k: int| 0 <= k < found.len() && found[k] == name;
            if k < before.len() {
                assert(before[k] == name);
                let i = choose|i: int|
                    0 <= i < init.len() && (#[trigger] init[i]).name@ == name && init[i].is_file
                        && scan::is_frame(name);
                assert(entries[i].name@ == name);
            } else {
                assert(entries[entries.len() - 1].name@ == name);
            }
        }
        if exists|i: int|
            0 <= i < entries.len() && (#[trigger] entries[i]).name@ == name && entries[i].is_file
                && scan::is_frame(name) {
            let i = choose|i: int|
                0 <= i < entries.len() && (#[trigger] entries[i]).name@ == name
                    && entries[i].is_file && scan::is_frame(name);
            if i < init.len() {
                assert(init[i].name@ == name);
                let k = choose|k: int| 0 <= k < before.len() && before[k] == name;
                assert(found[k] == name);
            } else {
                assert(found[found.len() - 1] == name);
            }
        }
    }
}

/// A card shows what its roll's manifest records, with the frame for a cover
/// that is highlighted when the roll is opened, and counts its frames.
pub proof fn cards_show_what_is_recorded(
    m: Model,
    dir: Seq<char>,
    files: Seq<Seq<char>>,
    manifest: ManifestModel,
)
    requires
        m.active == Some(dir),
        files.len() <= usize::MAX,
    ensures
        ({
            let card = scan::scanned(dir, files, manifest);
            let opened = m.roll_opened(dir, files, manifest);
            &&& card.dir == dir
            &&& card.frame_count == opened.tiles.len()
            &&& files.len() > 0 ==> card.cover == opened.frame_selected
            &&& files.len() == 0 ==> card.cover is None
            &&& card.preset == opened.roll.film()
            &&& card.base_mode == opened.roll.strategy()
            &&& card.start_date == opened.roll.start_date
            &&& card.end_date == opened.roll.end_date
            &&& manifest.name is Some ==> card.name == manifest.name.unwrap()
            &&& manifest.name is None && paths::file_name(dir) is Some ==> card.name
                == paths::file_name(dir).unwrap()
            &&& card.thumb == Thumb::Loading
        }),
{
    crate::frame_laws::listing_a_roll(m, dir, files, manifest);
}

/// Whether two texts that may be missing are the same.
pub open spec fn shows(value: Option<String>, text: Seq<char>) -> bool {
    value is Some && value.unwrap()@ == text
}

/// Each row of a readout shows what the file has under that heading, and what
/// the file has is shown.
pub proof fn rows_show_what_the_file_has(meta: FrameMeta, s: Seq<char>)
    ensures
        ({
            let rows = frame_info::meta_rows(meta);
            &&& rows.contains(InfoRowModel::Iso(s)) <==> shows(meta.iso, s)
            &&& rows.contains(InfoRowModel::Exposure(s)) <==> shows(meta.exposure, s)
            &&& rows.contains(InfoRowModel::Aperture(s)) <==> shows(meta.aperture, s)
            &&& rows.contains(InfoRowModel::Focal(s)) <==> shows(meta.focal, s)
            &&& rows.contains(InfoRowModel::Lens(s)) <==> shows(meta.lens, s)
            &&& rows.contains(InfoRowModel::Date(s)) <==> shows(meta.date, s)
            &&& meta.make is Some && meta.model is Some ==> rows.contains(
                InfoRowModel::Camera(meta.make.unwrap()@ + seq![' '] + meta.model.unwrap()@),
            )
            &&& meta.width is Some && meta.height is Some ==> rows.contains(
                InfoRowModel::Dimensions {
                    width: meta.width.unwrap()@,
                    height: meta.height.unwrap()@,
                },
            )
            &&& !rows.contains(InfoRowModel::Loading) && !rows.contains(InfoRowModel::Unavailable)
        }),
{
    let size = match (meta.width, meta.height) {
        (Some(w), Some(h)) => seq![InfoRowModel::Dimensions { width: w@, height: h@ }],
        _ => Seq::<InfoRowModel>::empty(),
    };
    let name = frame_info::camera(text::text_of(meta.make), text::text_of(meta.model));
    let fa = |s: Seq<char>| InfoRowModel::Camera(s);
    let fb = |s: Seq<char>| InfoRowModel::Iso(s);
    let fc = |s: Seq<char>| InfoRowModel::Exposure(s);
    let fd = |s: Seq<char>| InfoRowModel::Aperture(s);
    let fe = |s: Seq<char>| InfoRowModel::Focal(s);
    let ff = |s: Seq<char>| InfoRowModel::Lens(s);
    let fg = |s: Seq<char>| InfoRowModel::Date(s);
    let a = frame_info::followed(size, name, fa);
    let b = frame_info::followed(a, text::text_of(meta.iso), fb);
    let c = frame_info::followed(b, text::text_of(meta.exposure), fc);
    let d = frame_info::followed(c, text::text_of(meta.aperture), fd);
    let e = frame_info::followed(d, text::text_of(meta.focal), fe);
    let f = frame_info::followed(e, text::text_of(meta.lens), ff);
    let g = frame_info::followed(f, text::text_of(meta.date), fg);
    assert(frame_info::meta_rows(meta) == g);
    assert(meta.width is Some && meta.height is Some ==> size.contains(
        InfoRowModel::Dimensions { width: meta.width.unwrap()@, height: meta.height.unwrap()@ },
    )) by {
        if meta.width is Some && meta.height is Some {
            assert(size[0] == InfoRowModel::Dimensions {
                width: meta.width.unwrap()@,
                height: meta.height.unwrap()@,
            });
        }
    }
    one_row_more(size, name, fa);
    one_row_more(a, text::text_of(meta.iso), fb);
    one_row_more(b, text::text_of(meta.exposure), fc);
    one_row_more(c, text::text_of(meta.aperture), fd);
    one_row_more(d, text::text_of(meta.focal), fe);
    one_row_more(e, text::text_of(meta.lens), ff);
    one_row_more(f, text::text_of(meta.date), fg);
}

proof fn one_row_more(
    rows: Seq<InfoRowModel>,
    value: Option<Seq<char>>,
    row: spec_fn(Seq<char>) -> InfoRowModel,
)
    ensures
        forall|x: InfoRowModel| #[trigger]
            frame_info::followed(rows, value, row).contains(x) <==> rows.contains(x) || (value
                is Some && x == row(value.unwrap())),
{
    let more = frame_info::followed(rows, value, row);
    assert forall|x: InfoRowModel| #[trigger] more.contains(x) <==> rows.contains(x) || (value
        is Some && x == row(value.unwrap())) by {
        if rows.contains(x) {
            let k = choose|k: int| 0 <= k < rows.len() && rows[k] == x;
            assert(more[k] == x);
        }
        if value is Some && x == row(value.unwrap()) {
            assert(more[rows.len() as int] == x);
        }
        if more.contains(x) {
            let k = choose|k: int| 0 <= k < more.len() && more[k] == x;
            if k < rows.len() {
                assert(rows[k] == x);
            }
        }
    }
}

/// The capture time that the drawer shows for a frame is the one that an export
/// of it stamps.
pub proof fn shown_times_are_stamped(m: Model, name: Seq<char>, k: int, start: Seq<char>)
    requires
        first_named(m.tiles, name, k),
        m.roll.start_date == Some(start),
    ensures
        match exif_writer::shifted(start, k as nat) {
            Some(time) => {
                &&& m.info_rows(name).len() > 0
                &&& m.info_rows(name)[0] == InfoRowModel::OriginalDate(time)
                &&& export::stamp_of(Some(start), k as nat, None) == (if exif_writer::exif_shape(
                    time,
                ) {
                    Some(exif_writer::tiff_blob(time, None))
                } else {
                    None
                })
            },
            None => m.stamp_of(name) is None,
        },
        m.export_frame(name).index == k,
{
    found_tile(m, name, k);
}

/// The tags that a readout goes by: those of the image's own directory for the
/// size, the maker and the model, and those of the EXIF directory for the rest;
/// the EXIF size stands in where the image has none.
pub proof fn readouts_go_by_the_standard_tags(meta: FrameMeta, container: Seq<u8>)
    requires
        meta.reads(container),
    ensures
        text::text_of(meta.make) == frame_info::field_text(container, false, 271),
        text::text_of(meta.model) == frame_info::field_text(container, false, 272),
        text::text_of(meta.iso) == frame_info::field_text(container, true, 34855),
        text::text_of(meta.exposure) == frame_info::field_text(container, true, 33434),
        text::text_of(meta.aperture) == frame_info::field_text(container, true, 33437),
        text::text_of(meta.focal) == frame_info::field_text(container, true, 37386),
        text::text_of(meta.lens) == frame_info::field_text(container, true, 42036),
        text::text_of(meta.date) == frame_info::field_text(container, true, 36867),
        frame_info::field_text(container, false, 256) is Some ==> text::text_of(meta.width)
            == frame_info::field_text(container, false, 256),
        frame_info::field_text(container, false, 256) is None ==> text::text_of(meta.width)
            == frame_info::field_text(container, true, 40962),
        frame_info::field_text(container, false, 257) is Some ==> text::text_of(meta.height)
            == frame_info::field_text(container, false, 257),
        frame_info::field_text(container, false, 257) is None ==> text::text_of(meta.height)
            == frame_info::field_text(container, true, 40963),
{
}

/// How many finite samples are above a number.
pub open spec fn above(samples: Seq<Single>, v: Single) -> int {
    film::finite_count(samples) - film::ranked_at_most(samples, v.rank())
}

/// A measured base is one of the finite samples, with no more than one in twenty
/// of them above it, but about as many: so dust and outliers do not count.
pub proof fn bases_stand_at_a_high_percentile(samples: Seq<Single>, v: Single)
    requires
        film::measured_base(samples) == Some(v),
        film::stands_at(samples, film::percentile_place(film::finite_count(samples)), v),
    ensures
        samples.contains(v),
        v.finite(),
        100 * above(samples, v) <= 5 * film::finite_count(samples),
        100 * film::ranked_at_most(samples, v.rank() - 1) <= 95 * film::finite_count(samples),
{
    let n = film::finite_count(samples);
    assert(n * 95 / 100 * 100 <= 95 * n) by (nonlinear_arith);
    assert(100 * (n * 95 / 100 + 1) > 95 * n) by (nonlinear_arith);
}

/// The black point of a frame is the roll's calibration where there is one;
/// else, where frames are measured, the frame's own plausible measurement; else
/// the film's.
pub proof fn black_points_are_resolved_in_order(
    calibrated: Option<Single>,
    auto: bool,
    measured: Option<Single>,
    stock: Single,
)
    ensures
        calibrated is Some ==> film::resolved_base(calibrated, auto, measured, stock)
            == calibrated.unwrap(),
        calibrated is None && !auto ==> film::resolved_base(calibrated, auto, measured, stock)
            == stock,
        calibrated is None && measured is None ==> film::resolved_base(
            calibrated,
            auto,
            measured,
            stock,
        ) == stock,
        calibrated is None && auto && measured is Some && measured.unwrap().ge(
            Single { bits: 0x3dcc_cccd },
        ) ==> film::resolved_base(calibrated, auto, measured, stock) == measured.unwrap(),
        calibrated is None && auto && measured is Some && measured.unwrap().lt(
            Single { bits: 0x3dcc_cccd },
        ) ==> film::resolved_base(calibrated, auto, measured, stock) == stock,
{
}

/// The samples that a calibration is made from are those of the viewed frame's
/// own overview, under the roll's film.
pub proof fn calibrations_take_the_viewed_frame(m: Model, dir: Seq<char>, name: Seq<char>)
    requires
        m.active == Some(dir),
        m.selected == Some(name) || (m.selected is None && m.frame_selected == Some(name)),
        m.roll.strategy() == BaseMode::AutoSelectedFrame,
    ensures
        match m.calibration_buffer() {
            Some(buffer) => exists|i: int|
                0 <= i < m.detail_cache.len() && (#[trigger] m.detail_cache[i]).0 == (
                    dir,
                    m.roll.film(),
                    name,
                ) && m.detail_cache[i].1.buffer == buffer,
            None => !lru::holds(m.detail_cache, (dir, m.roll.film(), name)),
        },
{
    let key = (dir, m.roll.film(), name);
    lru::position_is_first(m.detail_cache, key);
    if lru::holds(m.detail_cache, key) {
        let i = lru::position(m.detail_cache, key);
        assert(m.detail_cache[i].0 == key);
    }
}

/// An export at native resolution keeps the size of the picture, and one that is
/// held to a long edge never exceeds it.
pub proof fn exports_keep_their_size(width: u32, height: u32)
    requires
        width >= 1,
        height >= 1,
    ensures
        raster::held_to(width as int, height as int, ExportSize::Original.limit() as int) == (
            width as int,
            height as int,
        ),
        raster::held_to(
            width as int,
            height as int,
            ExportSize::LongEdge2048.limit() as int,
        ).0 <= 2048,
        raster::held_to(
            width as int,
            height as int,
            ExportSize::LongEdge2048.limit() as int,
        ).1 <= 2048,
        width <= 2048 && height <= 2048 ==> raster::held_to(
            width as int,
            height as int,
            ExportSize::LongEdge2048.limit() as int,
        ) == (width as int, height as int),
{
    raster::resized_fits(width as int, height as int, 2048);
}

/// A file that is there already is replaced only where that is asked for; and a
/// frame counts as written only if it was.
pub proof fn files_are_replaced_only_when_asked(
    options: ExportOptions,
    there: bool,
    written: bool,
)
    ensures
        ({
            let outcome = export::outcome_of(options, there, written);
            &&& there && !options.overwrite <==> outcome == FrameOutcome::Skipped
            &&& outcome == FrameOutcome::Written ==> written && (options.overwrite || !there)
            &&& outcome == FrameOutcome::Failed ==> !written && (options.overwrite || !there)
        }),
{
}

/// An undated roll's frames keep their own names and carry no stamp; a dated
/// roll's are named by the date, the roll and their place.
pub proof fn dated_rolls_have_dated_exports(
    dest: Seq<char>,
    name: Seq<char>,
    index: nat,
    start: Seq<char>,
    format: ExportFormat,
    hash: Seq<char>,
    digitized: Option<Seq<char>>,
)
    requires
        crate::dates::iso_shape(start),
        index + 1 <= u16::MAX,
    ensures
        export::target_path(dest, name, index, None, format, hash) == paths::joined(
            dest,
            paths::extension_set(name, format.extension()),
        ),
        export::stamp_of(None, index, digitized) is None,
        export::target_path(dest, name, index, Some(start), format, hash) == paths::joined(
            dest,
            paths::extension_set(
                start.subrange(0, 4) + start.subrange(5, 7) + start.subrange(8, 10) + seq!['-']
                    + hash + seq!['-'] + text::zero_padded(
                    text::decimal(index + 1),
                    2,
                ),
                format.extension(),
            ),
        ),
{
    assert(export::dated_stem(start, index, hash) =~= start.subrange(0, 4) + start.subrange(5, 7)
        + start.subrange(8, 10) + seq!['-'] + hash + seq!['-'] + text::zero_padded(
        text::decimal(index + 1),
        2,
    ));
}

/// An older manifest whose flag asks for it measures every frame from then on;
/// any other is taken as it is. The film, the edits, the dates and the name
/// never change.
pub proof fn older_manifests_keep_their_strategy(manifest: ManifestModel, flag: Option<bool>)
    ensures
        ({
            let after = edit_manifest::migrated(manifest, flag);
            &&& manifest.version < 8 && flag == Some(true) ==> after.strategy()
                == BaseMode::AutoPerFrame
            &&& manifest.version >= 8 || flag != Some(true) ==> after == manifest
            &&& after.film() == manifest.film()
            &&& after == (ManifestModel { base_mode: after.base_mode, ..manifest })
        }),
{
    film::base_modes_round_trip(BaseMode::AutoPerFrame);
}

/// What is recorded is read: a manifest with a film has that film, and one with
/// a strategy that strategy; and neither changes the other.
pub proof fn recorded_choices_are_read(manifest: ManifestModel, preset: FilmPreset, mode: BaseMode)
    ensures
        manifest.with_film(preset).film() == preset,
        manifest.with_film(preset).strategy() == manifest.strategy(),
        manifest.with_strategy(mode).strategy() == mode,
        manifest.with_strategy(mode).film() == manifest.film(),
        ManifestModel::blank().film() == FilmPreset::Positive,
        ManifestModel::blank().strategy() == BaseMode::Preset,
{
    film::preset_keys_round_trip(preset);
    film::base_modes_round_trip(mode);
}

/// The preview passes on what happens over it: a press that begins a drag, the
/// moves, the wheel, and the release that ends the drag; and nothing of what
/// happens elsewhere but the end of its own drag.
pub proof fn the_preview_passes_on_its_events(area: DetailArea, state: AreaState, over: bool)
    requires
        area.press && area.release && area.moves && area.scroll,
    ensures
        over ==> area.response(state, PointerEvent::Pressed, over).signal == Some(
            AreaSignal::Press,
        ) && area.next_state(state, PointerEvent::Pressed, over).pressed,
        !over ==> area.response(state, PointerEvent::Pressed, over).signal is None
            && area.next_state(state, PointerEvent::Pressed, over) == state,
        over ==> area.response(state, PointerEvent::Moved, over).signal == Some(AreaSignal::Move),
        !over && !(state.was_over && state.pressed) ==> area.response(
            state,
            PointerEvent::Moved,
            over,
        ).signal is None,
        area.response(state, PointerEvent::Scrolled, over).signal == Some(AreaSignal::Scroll),
        area.response(state, PointerEvent::Released, over).signal == (if state.pressed {
            Some(AreaSignal::Release)
        } else {
            None
        }),
        !area.next_state(state, PointerEvent::Released, over).pressed,
        !area.next_state(state, PointerEvent::Left, over).pressed,
        area.next_state(state, PointerEvent::Moved, over).was_over == over,
        area.response(state, PointerEvent::Other, over).signal is None,
{
}

} // verus!
