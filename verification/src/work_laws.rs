//! What holds of all the work that the application asks for: it goes by what
//! the open roll's manifest and the library's cards record, and none of it is
//! forgotten.

use vstd::prelude::*;
use crate::edit_manifest::{CropMargins, EditData, ManifestModel, ToneEdit};
use crate::editing;
use crate::effect::{EffectModel, ExportFrameModel};
use crate::film::{BaseConfig, BaseMode, FilmPreset};
use crate::library;
use crate::library::{RollModel, SelectionModel, Thumb};
use crate::library_page;
use crate::message::{DetailMono, Message};
use crate::pumps;
use crate::seqs;
use crate::single::Single;
use crate::state;
use crate::state::{DetailState, Model};
use crate::text;

verus! {

/// The edits that a manifest records for a file; a file without any is shown
/// at +0.7 EV, with identity powers, whole and upright.
pub open spec fn recorded(roll: ManifestModel, name: Seq<char>) -> EditData {
    if roll.edits.dom().contains(name) {
        roll.edits[name]
    } else {
        EditData {
            exposure_ev: Single { bits: 0x3f33_3333 },
            curve_contrast: Single { bits: 0x3f80_0000 },
            curve_rolloff: Single { bits: 0x3f80_0000 },
            curve_shadows: Single { bits: 0x3f80_0000 },
            crop: CropMargins { top: 0, right: 0, bottom: 0, left: 0 },
            rotation: 0,
        }
    }
}

/// Whether a tone is that of some edits.
pub open spec fn tone_is_of(tone: ToneEdit, edits: EditData) -> bool {
    &&& tone.exposure_ev == edits.exposure_ev
    &&& tone.curve_contrast == edits.curve_contrast
    &&& tone.curve_rolloff == edits.curve_rolloff
    &&& tone.curve_shadows == edits.curve_shadows
}

/// Whether a picture is developed as a roll asks for: through its film, and
/// against its black point, which is that of the film, or measured for each
/// frame, or that of the calibration frame.
pub open spec fn develops(roll: ManifestModel, preset: FilmPreset, base: BaseConfig) -> bool {
    &&& preset == roll.film()
    &&& base.auto == (roll.strategy() == BaseMode::AutoPerFrame)
    &&& base.calibrated == (if roll.strategy() == BaseMode::AutoSelectedFrame {
        roll.base
    } else {
        None
    })
}

/// Whether a frame of an export carries the edits that are recorded for it, and
/// its place in the roll.
pub open spec fn exports_as_recorded(m: Model, frame: ExportFrameModel) -> bool {
    let edits = recorded(m.roll, frame.name);
    &&& tone_is_of(frame.tone, edits)
    &&& frame.crop == edits.crop
    &&& frame.rotation == edits.rotation % 4
    &&& pumps::tile_names(m.tiles).contains(frame.name) ==> 0 <= frame.index < m.tiles.len()
        && m.tiles[frame.index].name == frame.name
}

/// What a library card says of its roll's cover: the directory, the cover and
/// the film.
pub open spec fn card(roll: RollModel) -> (Seq<char>, Option<Seq<char>>, FilmPreset) {
    (roll.dir, roll.cover, roll.preset)
}

/// The cards of the library.
pub open spec fn cards(rolls: Seq<RollModel>) -> Seq<(Seq<char>, Option<Seq<char>>, FilmPreset)> {
    rolls.map_values(|r: RollModel| card(r))
}

/// Whether a piece of work goes by what is recorded: a frame is decoded or
/// exported with the edits, the film and the black point of the open roll's
/// manifest, and a cover with the film of its card.
pub open spec fn goes_by_the_record(m: Model, e: EffectModel) -> bool {
    match e {
        EffectModel::DecodeThumbnail { dir, name, tone, crop, rotation, preset, base } => {
            &&& m.active == Some(dir)
            &&& tone_is_of(tone, recorded(m.roll, name))
            &&& crop == recorded(m.roll, name).crop
            &&& rotation == recorded(m.roll, name).rotation % 4
            &&& develops(m.roll, preset, base)
        },
        EffectModel::DecodeDetail { dir, name, cap, preset, base } => {
            &&& m.active == Some(dir)
            &&& m.selected == Some(name)
            &&& cap == 2048 || cap == 8192
            &&& develops(m.roll, preset, base)
        },
        EffectModel::PreloadDetail { dir, name, preset, base } => {
            &&& m.active == Some(dir)
            &&& pumps::tile_names(m.tiles).contains(name)
            &&& develops(m.roll, preset, base)
        },
        EffectModel::DecodeCover { dir, name, preset } => {
            cards(m.rolls).contains((dir, Some(name), preset))
        },
        EffectModel::LoadFrameInfo { dir, name } => {
            &&& m.active == Some(dir)
            &&& m.frame_selected == Some(name)
        },
        EffectModel::MeasureFrame { dir, name, preset } => {
            &&& m.active == Some(dir)
            &&& m.roll.calibration_frame == Some(name)
            &&& preset == m.roll.film()
        },
        EffectModel::BeginExport { dir, dest, options, preset, base, start_date, frames } => {
            &&& m.active == Some(dir)
            &&& develops(m.roll, preset, base)
            &&& start_date == m.roll.start_date
            &&& forall|i: int|
                0 <= i < frames.len() ==> exports_as_recorded(m, #[trigger] frames[i])
        },
        _ => true,
    }
}

/// Whether all that was asked for since `before` goes by the record.
pub open spec fn asked_by_the_record(before: Seq<EffectModel>, m: Model) -> bool {
    &&& before.is_prefix_of(m.effects)
    &&& forall|i: int|
        before.len() <= i < m.effects.len() ==> goes_by_the_record(m, #[trigger] m.effects[i])
}

/// Whether two states record the same.
spec fn same_record(a: Model, b: Model) -> bool {
    &&& a.active == b.active
    &&& a.selected == b.selected
    &&& a.frame_selected == b.frame_selected
    &&& a.roll == b.roll
    &&& pumps::tile_names(a.tiles) == pumps::tile_names(b.tiles)
    &&& cards(a.rolls) == cards(b.rolls)
}

/// Whether a piece of work concerns no frame of the open roll.
spec fn concerns_no_frame(e: EffectModel) -> bool {
    match e {
        EffectModel::DecodeThumbnail { .. }
        | EffectModel::DecodeDetail { .. }
        | EffectModel::PreloadDetail { .. }
        | EffectModel::LoadFrameInfo { .. }
        | EffectModel::MeasureFrame { .. }
        | EffectModel::BeginExport { .. } => false,
        _ => true,
    }
}

/// What was asked for stays true while the record does.
proof fn same_record_same_truth(before: Seq<EffectModel>, a: Model, b: Model)
    requires
        asked_by_the_record(before, a),
        same_record(a, b),
        a.effects == b.effects,
    ensures
        asked_by_the_record(before, b),
{
    assert(a.tiles.len() == pumps::tile_names(a.tiles).len());
    assert(b.tiles.len() == pumps::tile_names(b.tiles).len());
    assert forall|k: int| 0 <= k < a.tiles.len() implies (#[trigger] a.tiles[k]).name
        == b.tiles[k].name by {
        assert(pumps::tile_names(a.tiles)[k] == pumps::tile_names(b.tiles)[k]);
    }
    assert forall|i: int| before.len() <= i < b.effects.len() implies goes_by_the_record(
        b,
        #[trigger] b.effects[i],
    ) by {
        let e = a.effects[i];
        assert(goes_by_the_record(a, e));
        match e {
            EffectModel::BeginExport { frames, .. } => {
                assert forall|j: int| 0 <= j < frames.len() implies exports_as_recorded(
                    b,
                    #[trigger] frames[j],
                ) by {
                    assert(exports_as_recorded(a, frames[j]));
                }
            },
            _ => {},
        }
    }
}

/// One more true piece of work keeps all true.
proof fn one_more_truth(before: Seq<EffectModel>, a: Model, e: EffectModel)
    requires
        asked_by_the_record(before, a),
        goes_by_the_record(a, e),
    ensures
        asked_by_the_record(before, a.emitting(e)),
{
    let b = a.emitting(e);
    same_record_grows(before, a, b);
}

/// More true work keeps all true.
proof fn same_record_grows(before: Seq<EffectModel>, a: Model, b: Model)
    requires
        asked_by_the_record(before, a),
        same_record(a, b),
        a.effects.is_prefix_of(b.effects),
        forall|i: int|
            a.effects.len() <= i < b.effects.len() ==> goes_by_the_record(
                a,
                #[trigger] b.effects[i],
            ),
    ensures
        asked_by_the_record(before, b),
{
    let c = Model { effects: b.effects, ..a };
    assert forall|i: int| before.len() <= i < c.effects.len() implies goes_by_the_record(
        c,
        #[trigger] c.effects[i],
    ) by {
        if i < a.effects.len() {
            assert(b.effects.subrange(0, a.effects.len() as int)[i] == a.effects[i]);
            assert(goes_by_the_record(a, a.effects[i]));
            same_truth_of_one(a, c, a.effects[i]);
        } else {
            assert(goes_by_the_record(a, b.effects[i]));
            same_truth_of_one(a, c, b.effects[i]);
        }
    }
    assert(before.is_prefix_of(b.effects)) by {
        assert(before =~= b.effects.subrange(0, before.len() as int)) by {
            assert forall|i: int| 0 <= i < before.len() implies before[i] == b.effects[i] by {
                assert(a.effects.subrange(0, before.len() as int)[i] == a.effects[i]);
                assert(b.effects.subrange(0, a.effects.len() as int)[i] == b.effects[i]);
            }
        }
    }
    same_record_same_truth(before, c, b);
}

proof fn same_truth_of_one(a: Model, c: Model, e: EffectModel)
    requires
        goes_by_the_record(a, e),
        a.active == c.active,
        a.selected == c.selected,
        a.frame_selected == c.frame_selected,
        a.roll == c.roll,
        a.tiles == c.tiles,
        a.rolls == c.rolls,
    ensures
        goes_by_the_record(c, e),
{
    match e {
        EffectModel::BeginExport { frames, .. } => {
            assert forall|j: int| 0 <= j < frames.len() implies exports_as_recorded(
                c,
                #[trigger] frames[j],
            ) by {
                assert(exports_as_recorded(a, frames[j]));
            }
        },
        _ => {},
    }
}

/// Work that concerns no frame stays true whatever becomes of the open roll.
proof fn other_work_stays_true(before: Seq<EffectModel>, a: Model, b: Model)
    requires
        asked_by_the_record(before, a),
        a.effects == b.effects,
        cards(a.rolls) == cards(b.rolls),
        forall|i: int|
            before.len() <= i < a.effects.len() ==> concerns_no_frame(#[trigger] a.effects[i]),
    ensures
        asked_by_the_record(before, b),
{
    assert forall|i: int| before.len() <= i < b.effects.len() implies goes_by_the_record(
        b,
        #[trigger] b.effects[i],
    ) by {
        assert(goes_by_the_record(a, a.effects[i]));
        assert(concerns_no_frame(a.effects[i]));
    }
}

/// A cover in another state leaves the cards as they are.
proof fn covers_leave_the_cards(m: Model, k: int, thumb: Thumb)
    requires
        0 <= k < m.rolls.len(),
    ensures
        cards(m.with_cover(k, thumb).rolls) == cards(m.rolls),
{
    assert(cards(m.with_cover(k, thumb).rolls) =~= cards(m.rolls));
}

proof fn reloading_leaves_the_cards(m: Model, dir: Seq<char>)
    ensures
        cards(m.cover_reloading(dir).rolls) == cards(m.rolls),
{
    seqs::first_where_is_first(m.rolls, state::in_dir(dir));
    match m.roll_at(dir) {
        Some(k) => {
            covers_leave_the_cards(m, k, Thumb::Loading);
        },
        None => {},
    }
}

/// Thumbnails in another state leave the names as they are.
proof fn thumbs_leave_the_names(m: Model)
    ensures
        pumps::tile_names(m.thumbs_reloading().tiles) == pumps::tile_names(m.tiles),
{
    assert(pumps::tile_names(m.thumbs_reloading().tiles) =~= pumps::tile_names(m.tiles));
}

/// The thumbnails that are started go by the record.
proof fn thumbs_are_true(before: Seq<EffectModel>, m: Model)
    requires
        asked_by_the_record(before, m),
    ensures
        asked_by_the_record(before, m.thumbs_pumped()),
        same_record(m, m.thumbs_pumped()),
{
    reveal(Model::thumbs_pumped);
    let b = m.thumbs_pumped();
    assert forall|i: int| m.effects.len() <= i < b.effects.len() implies goes_by_the_record(
        m,
        #[trigger] b.effects[i],
    ) by {
        let dir = m.active.unwrap();
        assert(b.effects[i] == pumps::thumb_job(
            m,
            dir,
            m.next_thumbs()[i - m.effects.len()],
        ));
    }
    same_record_grows(before, m, b);
}

/// The covers that are started go by their cards.
proof fn covers_are_true(before: Seq<EffectModel>, m: Model)
    requires
        asked_by_the_record(before, m),
    ensures
        asked_by_the_record(before, m.covers_pumped()),
        same_record(m, m.covers_pumped()),
        forall|i: int|
            m.effects.len() <= i < m.covers_pumped().effects.len() ==> concerns_no_frame(
                #[trigger] m.covers_pumped().effects[i],
            ),
        m.effects.is_prefix_of(m.covers_pumped().effects),
{
    reveal(Model::covers_pumped);
    let b = m.covers_pumped();
    let test = pumps::cover_waits(m.cover_inflight);
    let found = m.rolls.filter(test);
    assert forall|i: int| m.effects.len() <= i < b.effects.len() implies goes_by_the_record(
        m,
        #[trigger] b.effects[i],
    ) && concerns_no_frame(b.effects[i]) by {
        let r = m.next_covers()[i - m.effects.len()];
        assert(b.effects[i] == pumps::cover_job(r));
        assert(found.contains(r)) by {
            assert(found[i - m.effects.len()] == r);
        }
        m.rolls.lemma_filter_contains_rev(test, r);
        let k = choose|k: int| 0 <= k < m.rolls.len() && m.rolls[k] == r;
        assert(cards(m.rolls)[k] == card(r));
    }
    same_record_grows(before, m, b);
}

/// The decode for the detail view goes by the record.
proof fn detail_is_true(before: Seq<EffectModel>, m: Model)
    requires
        asked_by_the_record(before, m),
    ensures
        asked_by_the_record(before, m.detail_pumped()),
        same_record(m, m.detail_pumped()),
{
    reveal(Model::detail_pumped);
    reveal(Model::detail_requested);
    reveal(Model::installed);
    same_record_grows(before, m, m.detail_pumped());
}

/// The preloads that are started go by the record.
proof fn preloads_are_true(before: Seq<EffectModel>, m: Model, name: Seq<char>)
    requires
        asked_by_the_record(before, m),
    ensures
        asked_by_the_record(before, m.neighbors_pumped(name)),
        same_record(m, m.neighbors_pumped(name)),
{
    reveal(Model::neighbors_pumped);
    let b = m.neighbors_pumped(name);
    seqs::first_where_is_first(m.tiles, state::named(name));
    assert forall|i: int| m.effects.len() <= i < b.effects.len() implies goes_by_the_record(
        m,
        #[trigger] b.effects[i],
    ) by {
        let dir = m.active.unwrap();
        let k = m.tile_at(name).unwrap();
        let all = pumps::neighbors(m.tiles, k);
        let test = pumps::preload_due(m, dir);
        let n = m.next_preloads(dir, k)[i - m.effects.len()];
        assert(b.effects[i] == pumps::preload_jobs(m, dir, m.next_preloads(dir, k))[i
            - m.effects.len()]);
        assert(all.filter(test).contains(n)) by {
            assert(all.filter(test)[i - m.effects.len()] == n);
        }
        all.lemma_filter_contains_rev(test, n);
        let j = choose|j: int| 0 <= j < all.len() && all[j] == n;
        if k >= 1 && j == 0 {
            assert(pumps::tile_names(m.tiles)[k - 1] == n);
        } else {
            assert(pumps::tile_names(m.tiles)[k + 1] == n);
        }
    }
    same_record_grows(before, m, b);
}

/// What is decoded for the detail view goes by the record.
proof fn repump_is_true(before: Seq<EffectModel>, m: Model)
    requires
        asked_by_the_record(before, m),
    ensures
        asked_by_the_record(before, m.repumped()),
        same_record(m, m.repumped()),
{
    reveal(Model::repumped);
    detail_is_true(before, m);
    preloads_are_true(before, m.detail_pumped(), state::or_empty(m.selected));
}

/// A roll that is decoded anew is decoded by the record.
proof fn reflow_is_true(before: Seq<EffectModel>, m: Model, dir: Seq<char>)
    requires
        asked_by_the_record(before, m),
    ensures
        asked_by_the_record(before, m.roll_reflowed(dir)),
        same_record(m, m.roll_reflowed(dir)),
{
    reveal(Model::roll_reflowed);
    reveal(Model::detail_dropped);
    thumbs_leave_the_names(m);
    let a = Model {
        detail_cache: m.cache_without(dir),
        ..m.thumbs_reloading().detail_dropped()
    };
    same_record_same_truth(before, m, a);
    thumbs_are_true(before, a);
    repump_is_true(before, a.thumbs_pumped());
}

/// So is one whose black point changed.
proof fn base_reflow_is_true(before: Seq<EffectModel>, m: Model)
    requires
        asked_by_the_record(before, m),
    ensures
        asked_by_the_record(before, m.base_reflowed()),
        same_record(m, m.base_reflowed()),
{
    reveal(Model::base_reflowed);
    reveal(Model::detail_dropped);
    same_record_grows(before, m, m.roll_persisted());
    let saved = m.roll_persisted();
    let bare = Model { detail_cache: Seq::empty(), ..saved.detail_dropped() };
    thumbs_leave_the_names(bare);
    let dropped = bare.thumbs_reloading();
    same_record_same_truth(before, saved, dropped);
    let cover = match dropped.active {
        Some(dir) => dropped.cover_reloading(dir),
        None => dropped,
    };
    match dropped.active {
        Some(dir) => {
            reloading_leaves_the_cards(dropped, dir);
        },
        None => {},
    }
    same_record_same_truth(before, dropped, cover);
    thumbs_are_true(before, cover);
    covers_are_true(before, cover.thumbs_pumped());
    repump_is_true(before, cover.thumbs_pumped().covers_pumped());
}

/// A readout that is asked for is that of the highlighted frame.
proof fn info_is_true(before: Seq<EffectModel>, m: Model)
    requires
        asked_by_the_record(before, m),
    ensures
        asked_by_the_record(before, m.frame_info_requested()),
        same_record(m, m.frame_info_requested()),
{
    same_record_grows(before, m, m.frame_info_requested());
}

/// Whether a piece of work has nothing to do with decoding.
spec fn plain(e: EffectModel) -> bool {
    concerns_no_frame(e) && !(e is DecodeCover)
}

/// Plain work is true of every state.
proof fn plain_work_is_true(before: Seq<EffectModel>, after: Model)
    requires
        before.is_prefix_of(after.effects),
        forall|i: int|
            before.len() <= i < after.effects.len() ==> plain(#[trigger] after.effects[i]),
    ensures
        asked_by_the_record(before, after),
{
}

/// One piece of plain work more, at most.
proof fn plain_step_is_true(before: Seq<EffectModel>, after: Model)
    requires
        after.effects == before || exists|e: EffectModel|
            plain(e) && after.effects == #[trigger] before.push(e),
    ensures
        asked_by_the_record(before, after),
{
    if after.effects == before {
        assert(before =~= before.subrange(0, before.len() as int));
    } else {
        let e = choose|e: EffectModel| plain(e) && after.effects == #[trigger] before.push(e);
        assert(before =~= after.effects.subrange(0, before.len() as int));
    }
    plain_work_is_true(before, after);
}

/// Nothing asked for is nothing false.
proof fn nothing_is_true(m: Model)
    ensures
        asked_by_the_record(m.effects, m),
{
    assert(m.effects =~= m.effects.subrange(0, m.effects.len() as int));
}

proof fn commit_is_true(before: Seq<EffectModel>, m: Model)
    requires
        asked_by_the_record(before, m),
    ensures
        asked_by_the_record(before, m.committed()),
{
    reveal(Model::committed);
    reveal(Model::rebaked);
    reveal(Model::tile_reloading);
    same_record_grows(before, m, m.roll_persisted());
    let saved = m.roll_persisted();
    match saved.selected {
        Some(name) => {
            let a = saved.tile_reloading(name);
            seqs::first_where_is_first(saved.tiles, state::named(name));
            assert(pumps::tile_names(a.tiles) =~= pumps::tile_names(saved.tiles));
            same_record_same_truth(before, saved, a);
            thumbs_are_true(before, a);
            let shown = a.thumbs_pumped();
            match shown.active {
                Some(dir) => {
                    let test = editing::covered_by(dir, name);
                    seqs::first_where_is_first(shown.rolls, test);
                    match seqs::first_where(shown.rolls, test) {
                        Some(k) => {
                            covers_leave_the_cards(shown, k, Thumb::Loading);
                            let c = shown.with_cover(k, Thumb::Loading);
                            same_record_same_truth(before, shown, c);
                            covers_are_true(before, c);
                        },
                        None => {},
                    }
                },
                None => {},
            }
        },
        None => {},
    }
}

proof fn paste_is_true(m: Model)
    ensures
        asked_by_the_record(m.effects, m.pasted()),
{
    reveal(Model::pasted);
    reveal(Model::tone_applied);
    reveal(Model::rebaked_all);
    nothing_is_true(m);
    let before = m.effects;
    let names = editing::paste_targets(m);
    match m.clipboard {
        Some(tone) if names != Set::<Seq<char>>::empty() => {
            let toned = m.tone_applied(names, tone);
            nothing_is_true(toned);
            let saved = toned.roll_persisted();
            same_record_grows(before, toned, saved);
            let a = Model { tiles: editing::tiles_reloading(saved.tiles, names), ..saved };
            assert(pumps::tile_names(a.tiles) =~= pumps::tile_names(saved.tiles));
            same_record_same_truth(before, saved, a);
            thumbs_are_true(before, a);
            let shown = a.thumbs_pumped();
            match shown.active {
                Some(dir) => {
                    let test = editing::covered_by_any(dir, names);
                    seqs::first_where_is_first(shown.rolls, test);
                    match seqs::first_where(shown.rolls, test) {
                        Some(k) => {
                            covers_leave_the_cards(shown, k, Thumb::Loading);
                            let c = shown.with_cover(k, Thumb::Loading);
                            same_record_same_truth(before, shown, c);
                            covers_are_true(before, c);
                        },
                        None => {},
                    }
                },
                None => {},
            }
        },
        _ => {},
    }
}

proof fn opening_is_true(m: Model, name: Seq<char>)
    ensures
        asked_by_the_record(m.effects, m.frame_opened(name)),
{
    reveal(Model::frame_opened);
    reveal(Model::frame_entered);
    nothing_is_true(m);
    let entered = if m.selected == Some(name) {
        m
    } else {
        m.frame_entered(name)
    };
    assert(asked_by_the_record(m.effects, entered)) by {
        if m.selected != Some(name) {
            let bare = Model { effects: m.effects, ..entered };
            nothing_is_true(bare);
            assert(m.effects.is_prefix_of(entered.effects));
            same_record_grows(m.effects, bare, entered);
        }
    }
    detail_is_true(m.effects, entered);
    preloads_are_true(m.effects, entered.detail_pumped(), name);
}

proof fn roll_opening_is_true(before: Seq<EffectModel>, m: Model, dir: Seq<char>)
    requires
        asked_by_the_record(before, m),
        forall|i: int|
            before.len() <= i < m.effects.len() ==> concerns_no_frame(#[trigger] m.effects[i]),
    ensures
        asked_by_the_record(before, m.roll_opening(dir)),
{
    reveal(Model::roll_opening);
    let after = m.roll_opening(dir);
    if m.active != Some(dir) {
        let bare = Model { effects: m.effects, ..after };
        other_work_stays_true(before, m, bare);
        assert(m.effects.is_prefix_of(after.effects));
        same_record_grows(before, bare, after);
    }
}

proof fn library_work_is_true(m: Model, message: Message)
    requires
        asked_by_the_record(m.effects, m.acted_drafts(message)),
    ensures
        asked_by_the_record(m.effects, m.acted_library(message)),
{
    reveal(Model::acted_library);
    nothing_is_true(m);
    let before = m.effects;
    match message {
        Message::RollsLoaded(rolls) => {
            reveal(Model::rolls_loaded);
            reveal(Model::first_selected);
            let loaded = Model {
                rolls: library::roll_models(rolls@),
                cover_inflight: Seq::empty(),
                ..m
            };
            let sound = if loaded.selection_stale() {
                loaded.deselected()
            } else {
                loaded
            };
            let chosen = sound.first_selected();
            nothing_is_true(chosen);
            covers_are_true(before, chosen);
        },
        Message::RollInfoLoaded(roll) => {
            reveal(Model::roll_listed);
            let listed = Model {
                rolls: library::sorted_by_name(m.rolls.push(roll.model())),
                ..m
            };
            nothing_is_true(listed);
            covers_are_true(before, listed);
        },
        Message::CoverReady(dir, picture) => {
            reveal(Model::cover_decoded);
            let shown = match m.roll_at(dir@) {
                Some(k) => m.with_cover(k, library_page::decoded(picture)),
                None => m,
            };
            let free = Model {
                cover_inflight: seqs::without(shown.cover_inflight, dir@),
                ..shown
            };
            nothing_is_true(free);
            covers_are_true(before, free);
        },
        Message::RollAdded(given, preset) => {
            added_is_true(m, given@, preset);
        },
        Message::RollPresetChanged(dir, preset) => {
            preset_is_true(m, dir@, preset);
        },
        Message::RollBaseModeChanged(dir, mode) => {
            mode_is_true(m, dir@, mode);
        },
        Message::CalibrateBaseFromFrame(samples) => {
            calibration_is_true(m, samples@);
        },
        Message::CalibrationBaseMeasured(dir, name, base, manifest) => {
            landing_is_true(m, dir@, name@, base, manifest.model());
        },
        Message::RemoveRoll(dir) => {
            removal_is_true(m, dir@);
        },
        Message::RemoveSelectedRoll => {
            match m.library_selection {
                Some(SelectionModel::Roll(dir)) => {
                    removal_is_true(m, dir);
                },
                _ => {},
            }
        },
        _ => {
            assert(m.effects =~= m.effects.subrange(0, m.effects.len() as int));
        },
    }
}

proof fn removal_is_true(m: Model, dir: Seq<char>)
    ensures
        asked_by_the_record(m.effects, m.roll_removed(dir)),
{
    reveal(Model::roll_removed);
    reveal(Model::first_selected);
    let after = m.roll_removed(dir);
    let bare = Model { effects: m.effects, ..after };
    nothing_is_true(bare);
    nothing_is_true(m);
    if after.effects != m.effects {
        assert(m.effects.is_prefix_of(after.effects));
    }
    same_record_grows(m.effects, bare, after);
}

proof fn added_is_true(m: Model, given: Seq<char>, preset: FilmPreset)
    ensures
        asked_by_the_record(m.effects, m.roll_added(given, preset)),
{
    reveal(Model::roll_added);
    let before = m.effects;
    let dir = crate::paths::tidied(given);
    let known = if m.roll_at(dir) is Some {
        m
    } else {
        Model { config: m.config.push(given), ..m }.config_persisted()
    };
    let chosen = known.emitting(EffectModel::RecordPreset { dir, preset }).card_preset(
        dir,
        preset,
    ).selecting(SelectionModel::Roll(dir)).emitting(EffectModel::ScanRoll { dir });
    let bare = Model { effects: before, ..chosen };
    nothing_is_true(bare);
    assert(before.is_prefix_of(chosen.effects));
    same_record_grows(before, bare, chosen);
    roll_opening_is_true(before, chosen, dir);
    covers_are_true(before, chosen.roll_opening(dir));
}

proof fn preset_is_true(m: Model, dir: Seq<char>, preset: FilmPreset)
    ensures
        asked_by_the_record(m.effects, m.preset_changed(dir, preset)),
{
    reveal(Model::preset_changed);
    let before = m.effects;
    let named = m.emitting(EffectModel::RecordPreset { dir, preset }).card_preset(dir, preset);
    let bare = Model { effects: before, ..named };
    nothing_is_true(bare);
    same_record_grows(before, bare, named);
    covers_are_true(before, named);
    let carded = named.covers_pumped();
    assert forall|i: int| before.len() <= i < carded.effects.len() implies concerns_no_frame(
        #[trigger] carded.effects[i],
    ) by {
        if i < named.effects.len() {
            assert(carded.effects.subrange(0, named.effects.len() as int)[i] == named.effects[i]);
        }
    }
    if carded.active == Some(dir) {
        let set = Model { roll: carded.roll.with_film(preset), ..carded };
        other_work_stays_true(before, carded, set);
        reflow_is_true(before, set, dir);
    }
}

proof fn mode_is_true(m: Model, dir: Seq<char>, mode: BaseMode)
    ensures
        asked_by_the_record(m.effects, m.base_mode_changed(dir, mode)),
{
    reveal(Model::base_mode_changed);
    let before = m.effects;
    let named = m.emitting(EffectModel::RecordBaseMode { dir, mode }).card_base_mode(dir, mode);
    let bare = Model { effects: before, ..named };
    nothing_is_true(bare);
    same_record_grows(before, bare, named);
    covers_are_true(before, named);
    let carded = named.covers_pumped();
    assert forall|i: int| before.len() <= i < carded.effects.len() implies concerns_no_frame(
        #[trigger] carded.effects[i],
    ) by {
        if i < named.effects.len() {
            assert(carded.effects.subrange(0, named.effects.len() as int)[i] == named.effects[i]);
        }
    }
    mode_set_is_true(before, carded, dir, mode);
}

proof fn mode_set_is_true(before: Seq<EffectModel>, carded: Model, dir: Seq<char>, mode: BaseMode)
    requires
        asked_by_the_record(before, carded),
        forall|i: int|
            before.len() <= i < carded.effects.len() ==> concerns_no_frame(
                #[trigger] carded.effects[i],
            ),
    ensures
        ({
            let set = if mode == BaseMode::AutoSelectedFrame {
                carded.calibration_begun(dir)
            } else {
                carded.calibration_ended(dir)
            };
            asked_by_the_record(
                before,
                if set.active == Some(dir) {
                    Model { roll: set.roll.with_strategy(mode), ..set }.roll_reflowed(dir)
                } else {
                    set
                },
            )
        }),
{
    let set = if mode == BaseMode::AutoSelectedFrame {
        carded.calibration_begun(dir)
    } else {
        carded.calibration_ended(dir)
    };
    let last = if set.active == Some(dir) {
        Model { roll: set.roll.with_strategy(mode), ..set }
    } else {
        set
    };
    let quiet = Model { effects: carded.effects, ..last };
    assert(cards(quiet.rolls) == cards(carded.rolls)) by {
        reveal(Model::calibration_begun);
        reveal(Model::calibration_ended);
    }
    other_work_stays_true(before, carded, quiet);
    assert(carded.effects.is_prefix_of(last.effects) && forall|i: int|
        carded.effects.len() <= i < last.effects.len() ==> plain(#[trigger] last.effects[i])) by {
        reveal(Model::calibration_begun);
        reveal(Model::calibration_ended);
    }
    same_record_grows(before, quiet, last);
    if set.active == Some(dir) {
        reflow_is_true(before, last, dir);
    }
}

proof fn calibration_is_true(m: Model, samples: Seq<Single>)
    ensures
        asked_by_the_record(m.effects, m.calibrated(samples)),
{
    reveal(Model::calibrated);
    nothing_is_true(m);
    let before = m.effects;
    match m.calibration_source() {
        Some((dir, name)) => {
            let key = (dir, m.roll.film(), name);
            let looked_up = Model { detail_cache: crate::lru::touched(m.detail_cache, key), ..m };
            nothing_is_true(looked_up);
            match crate::film::plausibly_measured(samples) {
                Some(base) => {
                    let set = Model { roll: m.roll.calibrated(name, Some(base)), ..looked_up };
                    nothing_is_true(set);
                    base_reflow_is_true(before, set);
                },
                None => {},
            }
            let named = Model {
                roll: ManifestModel { calibration_frame: Some(name), ..m.roll },
                ..m
            };
            nothing_is_true(named);
            let asked = named.roll_persisted().emitting(
                EffectModel::MeasureFrame { dir, name, preset: m.roll.film() },
            );
            assert(before.is_prefix_of(asked.effects));
            same_record_grows(before, named, asked);
        },
        None => {},
    }
}

proof fn landing_is_true(
    m: Model,
    dir: Seq<char>,
    name: Seq<char>,
    base: Option<Single>,
    on_disk: ManifestModel,
)
    ensures
        asked_by_the_record(m.effects, m.measurement_landed(dir, name, base, on_disk)),
{
    reveal(Model::measurement_landed);
    nothing_is_true(m);
    let before = m.effects;
    let written = m.emitting(
        EffectModel::SaveManifest { dir, manifest: on_disk.calibrated(name, base) },
    );
    same_record_grows(before, m, written);
    let set = Model { roll: written.roll.calibrated(name, base), ..written };
    other_work_stays_true(before, written, set);
    base_reflow_is_true(before, set);
    reloading_leaves_the_cards(written, dir);
    same_record_same_truth(before, written, written.cover_reloading(dir));
    covers_are_true(before, written.cover_reloading(dir));
}

proof fn drafts_work_is_true(m: Model, message: Message)
    requires
        asked_by_the_record(m.effects, m.acted_frames(message)),
    ensures
        asked_by_the_record(m.effects, m.acted_drafts(message)),
{
    reveal(Model::acted_drafts);
    reveal(Model::date_submitted);
    reveal(Model::name_submitted);
    reveal(Model::search_activated);
    reveal(Model::search_closed);
    reveal(Model::search_typed);
    reveal(Model::search_applied);
    nothing_is_true(m);
    let after = m.acted_drafts(message);
    match message {
        Message::RollDateDraftChange(_, _)
        | Message::RollDateDraftSubmit(_)
        | Message::RollNameDraftChange(_)
        | Message::RollNameDraftSubmit
        | Message::SearchActivate
        | Message::SearchClear
        | Message::SearchInput(_)
        | Message::SearchCommitted(_, _)
        | Message::UpdateConfig(_) => {
            let bare = Model { effects: m.effects, ..after };
            nothing_is_true(bare);
            assert(m.effects.is_prefix_of(after.effects));
            same_record_grows(m.effects, bare, after);
        },
        _ => {},
    }
}

proof fn escape_is_true(m: Model)
    ensures
        asked_by_the_record(m.effects, m.escaped()),
{
    reveal(Model::escaped);
    reveal(Model::search_closed);
    reveal(Model::roll_closed);
    let before = m.effects;
    let saved = m.roll_persisted();
    let left = if m.active is None && m.search is Some {
        saved.search_closed()
    } else if m.active is None {
        saved
    } else if m.selected is Some {
        Model { selected: None, ..saved }.detail_cleared().drawer_restored(
            crate::drawer::DrawerView::Grid,
        )
    } else {
        saved.roll_closed()
    };
    let bare = Model { effects: before, ..left };
    nothing_is_true(bare);
    assert(before.is_prefix_of(left.effects));
    same_record_grows(before, bare, left);
    info_is_true(before, left);
}

proof fn crop_move_is_true(m: Model, dir: library::MoveDir)
    requires
        m.detail.crop_mode,
    ensures
        asked_by_the_record(m.effects, m.navigated(dir)),
{
    reveal(Model::navigated);
    reveal(Model::crop_moved);
    reveal(Model::crop_set);
    let after = m.navigated(dir);
    assert(plain(EffectModel::ReclampZoom));
    assert(after.effects == m.effects || after.effects == m.effects.push(EffectModel::ReclampZoom));
    plain_step_is_true(m.effects, after);
}

proof fn library_move_is_true(m: Model, dir: library::MoveDir)
    ensures
        asked_by_the_record(m.effects, m.library_navigated(dir)),
{
    reveal(Model::library_navigated);
    let after = m.library_navigated(dir);
    let cells = m.library_grid();
    let now = match m.library_selection {
        Some(s) => seqs::first_where(cells, library::is_selection(s)),
        None => None,
    };
    match library::nav_place(now, cells.len() as int, m.nav_cols(), dir) {
        Some(target) => {
            let e = EffectModel::ScrollTo {
                grid: crate::effect::GridId::Rolls,
                index: target,
                len: cells.len() as int,
                cols: m.nav_cols(),
            };
            assert(plain(e));
            assert(after.effects == m.effects.push(e));
        },
        None => {},
    }
    plain_step_is_true(m.effects, after);
}

proof fn frame_move_is_true(m: Model, dir: library::MoveDir)
    ensures
        asked_by_the_record(m.effects, m.frame_navigated(dir)),
{
    reveal(Model::frame_navigated);
    nothing_is_true(m);
    let before = m.effects;
    match m.selected {
        Some(open) => match m.tile_at(open) {
            Some(i) => match library::page_place(i, m.tiles.len() as int, dir) {
                Some(t) => {
                    opening_is_true(m, m.tiles[t].name);
                },
                None => {},
            },
            None => {},
        },
        None => {
            let now = match m.frame_selected {
                Some(n) => m.tile_at(n),
                None => None,
            };
            match library::nav_place(now, m.tiles.len() as int, m.nav_cols(), dir) {
                Some(target) => {
                    let e = EffectModel::ScrollTo {
                        grid: crate::effect::GridId::Frames,
                        index: target,
                        len: m.tiles.len() as int,
                        cols: m.nav_cols(),
                    };
                    let lit = m.highlighting(m.tiles[target].name).emitting(e);
                    assert(plain(e));
                    plain_step_is_true(before, lit);
                    info_is_true(before, lit);
                },
                None => {},
            }
        },
    }
}

proof fn navigation_is_true(m: Model, dir: library::MoveDir)
    ensures
        asked_by_the_record(m.effects, m.navigated(dir)),
{
    if m.detail.crop_mode {
        crop_move_is_true(m, dir);
    } else {
        reveal(Model::navigated);
        frame_move_is_true(m, dir);
        library_move_is_true(m, dir);
    }
}

proof fn listing_is_true(
    m: Model,
    dir: Seq<char>,
    files: Seq<Seq<char>>,
    manifest: ManifestModel,
)
    ensures
        asked_by_the_record(m.effects, m.roll_opened(dir, files, manifest)),
{
    reveal(Model::roll_opened);
    reveal(Model::frames_listed);
    reveal(Model::calibration_defaulted);
    nothing_is_true(m);
    let before = m.effects;
    let begun = m.frames_listed(files, manifest).calibration_defaulted(dir);
    let bare = Model { effects: before, ..begun };
    nothing_is_true(bare);
    assert(before.is_prefix_of(begun.effects));
    same_record_grows(before, bare, begun);
    thumbs_are_true(before, begun);
    info_is_true(before, begun.thumbs_pumped());
}

proof fn frames_work_is_true(m: Model, message: Message)
    requires
        asked_by_the_record(m.effects, m.acted_editing(message)),
    ensures
        asked_by_the_record(m.effects, m.acted_frames(message)),
{
    reveal(Model::acted_frames);
    nothing_is_true(m);
    let before = m.effects;
    match message {
        Message::DetailClosed => {
            escape_is_true(m);
        },
        Message::OpenSelected => {
            reveal(Model::selection_opened);
            match m.frame_selected {
                Some(n) => {
                    opening_is_true(m, n);
                },
                None => {},
            }
            match m.library_selection {
                Some(SelectionModel::Roll(dir)) => {
                    roll_opening_is_true(before, m, dir);
                },
                _ => {},
            }
            one_more_truth(before, m, EffectModel::OpenRollPicker);
        },
        Message::RollActivated(dir) => {
            roll_opening_is_true(before, m, dir@);
        },
        Message::Nav(dir) => {
            navigation_is_true(m, dir);
        },
        Message::FrameSelected(name) => {
            reveal(Model::frame_clicked);
            let (frames, anchor) = crate::frames::clicked_frames(
                m.selected_frames,
                name@,
                m.modifiers.control,
                m.modifiers.shift,
                m.selection_anchor,
                m.tiles,
            );
            let lit = Model {
                frame_selected: Some(name@),
                selected_frames: frames,
                selection_anchor: anchor,
                ..m
            };
            nothing_is_true(lit);
            info_is_true(before, lit);
        },
        Message::SelectAllFrames => {
            reveal(Model::all_selected);
            nothing_is_true(m.all_selected());
        },
        Message::RollOpened(dir, files, manifest) => {
            listing_is_true(m, dir@, text::texts(files@), manifest.model());
        },
        Message::FrameInfoReady(name, meta) => {
            reveal(Model::frame_info_read);
            nothing_is_true(m.frame_info_read(name@, meta));
        },
        Message::ThumbReady(name, picture) => {
            reveal(Model::thumb_decoded);
            let shown = match m.tile_at(name@) {
                Some(k) => m.with_thumb(k, library_page::decoded(picture)),
                None => m,
            };
            let free = Model {
                thumb_inflight: seqs::without(shown.thumb_inflight, name@),
                ..shown
            };
            nothing_is_true(free);
            thumbs_are_true(before, free);
        },
        Message::ThumbnailActivated(name) => {
            opening_is_true(m, name@);
        },
        _ => {},
    }
}

proof fn adjusting_is_true(m: Model, message: Message)
    requires
        match message {
            Message::ExposureChanged(_)
            | Message::AdjustEdit { .. }
            | Message::CurveChanged(_, _, _)
            | Message::ResetAll
            | Message::CopyEdits => true,
            _ => false,
        },
    ensures
        asked_by_the_record(m.effects, m.acted_editing(message)),
{
    reveal(Model::acted_editing);
    reveal(Model::exposure_set);
    reveal(Model::curve_set);
    reveal(Model::edit_key_pressed);
    reveal(Model::adjusted);
    reveal(Model::crop_resized);
    reveal(Model::crop_set);
    reveal(Model::rotation_set);
    reveal(Model::all_reset);
    reveal(Model::copied);
    let after = m.acted_editing(message);
    assert(plain(EffectModel::ReclampZoom));
    assert(after.effects == m.effects || after.effects == m.effects.push(EffectModel::ReclampZoom));
    plain_step_is_true(m.effects, after);
}

proof fn editing_work_is_true(m: Model, message: Message)
    requires
        asked_by_the_record(m.effects, m.acted_detail(message)),
    ensures
        asked_by_the_record(m.effects, m.acted_editing(message)),
{
    reveal(Model::acted_editing);
    nothing_is_true(m);
    let before = m.effects;
    match message {
        Message::ExposureChanged(_)
        | Message::AdjustEdit { .. }
        | Message::CurveChanged(_, _, _)
        | Message::ResetAll
        | Message::CopyEdits => {
            adjusting_is_true(m, message);
        },
        Message::EditKeyReleased => {
            reveal(Model::edit_key_released);
            let free = Model { editing_key_held: false, ..m };
            nothing_is_true(free);
            commit_is_true(before, free);
        },
        Message::ResetCrop => {
            reveal(Model::crop_reset);
            reveal(Model::crop_set);
            let set = m.crop_set(CropMargins::no_crop());
            assert(plain(EffectModel::ReclampZoom));
            assert(set.effects == before.push(EffectModel::ReclampZoom));
            plain_step_is_true(before, set);
            commit_is_true(before, set);
        },
        Message::ToggleCropMode => {
            reveal(Model::crop_mode_toggled);
            let switched = Model {
                detail: DetailState {
                    crop_mode: if m.detail.live is Some {
                        !m.detail.crop_mode
                    } else {
                        m.detail.crop_mode
                    },
                    ..m.detail
                },
                ..m
            }.emitting(EffectModel::ReclampZoom);
            assert(plain(EffectModel::ReclampZoom));
            assert(switched.effects == before.push(EffectModel::ReclampZoom));
            plain_step_is_true(before, switched);
            commit_is_true(before, switched);
        },
        Message::EditSave => {
            commit_is_true(before, m);
        },
        Message::PasteEdits => {
            paste_is_true(m);
        },
        _ => {},
    }
}

proof fn detail_work_is_true(m: Model, message: Message)
    requires
        asked_by_the_record(m.effects, m.acted_window(message)),
    ensures
        asked_by_the_record(m.effects, m.acted_detail(message)),
{
    reveal(Model::acted_detail);
    nothing_is_true(m);
    let before = m.effects;
    match message {
        Message::DetailReady { name, preset, result, cap, one_to_one } => {
            finish_is_true(m, name@, preset, result, cap, one_to_one);
        },
        Message::DetailPreloaded { dir, name, preset, result } => {
            reveal(Model::preload_finished);
            reveal(Model::stored);
            nothing_is_true(m.preload_finished(dir@, name@, preset, result));
        },
        Message::DetailZoom { zoom, pan, one_to_one } => {
            reveal(Model::zoomed);
            let moved = Model { detail: DetailState { zoom, pan, ..m.detail }, ..m };
            nothing_is_true(moved);
            detail_is_true(before, moved);
        },
        Message::DetailAreaResized(size) => {
            let sized = Model { detail: DetailState { area: Some(size), ..m.detail }, ..m };
            nothing_is_true(sized);
            one_more_truth(before, sized, EffectModel::ReclampZoom);
        },
        Message::DetailFadeTick(opacity) => {
            reveal(Model::faded);
            nothing_is_true(m.faded(opacity));
        },
        Message::DetailPanMove { cursor, pan } => {
            reveal(Model::cursor_moved);
            nothing_is_true(m.cursor_moved(cursor, pan));
        },
        _ => {},
    }
}

proof fn finish_is_true(
    m: Model,
    name: Seq<char>,
    preset: FilmPreset,
    result: Result<DetailMono, String>,
    cap: Single,
    one_to_one: Single,
)
    ensures
        asked_by_the_record(m.effects, m.detail_finished(name, preset, result, cap, one_to_one)),
{
    reveal(Model::detail_finished);
    reveal(Model::result_taken);
    reveal(Model::landed);
    reveal(Model::stored);
    reveal(Model::installed);
    reveal(Model::zoom_held);
    reveal(Model::failure_reported);
    let before = m.effects;
    let free = m.result_taken(name, preset, result, cap);
    let bare = Model { effects: before, ..free };
    nothing_is_true(bare);
    assert(before.is_prefix_of(free.effects));
    same_record_grows(before, bare, free);
    detail_is_true(before, free);
    let stale = Model { detail_inflight: None, ..m };
    nothing_is_true(stale);
    detail_is_true(before, stale);
}

proof fn window_work_is_true(m: Model, message: Message)
    ensures
        asked_by_the_record(m.effects, m.acted_window(message)),
{
    reveal(Model::acted_window);
    nothing_is_true(m);
    let before = m.effects;
    let after = m.acted_window(message);
    match message {
        Message::ExportChosen(choice) => {
            export_is_true(m, choice);
        },
        Message::ToggleContext => {
            reveal(Model::context_toggled);
            let view = m.current_view();
            let toggled = Model { drawer: m.drawer.toggled(view, m.drawer_valid(view)), ..m };
            nothing_is_true(toggled);
            info_is_true(before, toggled);
        },
        _ => {
            reveal(Model::export_requested);
            reveal(Model::export_finished);
            let bare = Model { effects: before, ..after };
            nothing_is_true(bare);
            assert(before.is_prefix_of(after.effects));
            same_record_grows(before, bare, after);
        },
    }
}

proof fn export_frames_are_true(m: Model)
    ensures
        forall|i: int|
            0 <= i < m.export_frames().len() ==> exports_as_recorded(
                m,
                #[trigger] m.export_frames()[i],
            ),
{
    let frames = m.export_frames();
    assert forall|i: int| 0 <= i < frames.len() implies exports_as_recorded(
        m,
        #[trigger] frames[i],
    ) by {
        let name = m.export_targets()[i];
        assert(frames[i] == m.export_frame(name));
        seqs::first_where_is_first(m.tiles, state::named(name));
        if pumps::tile_names(m.tiles).contains(name) {
            let k = choose|k: int|
                0 <= k < pumps::tile_names(m.tiles).len() && pumps::tile_names(m.tiles)[k] == name;
            assert(m.tiles[k].name == name);
            assert(state::named(name)(m.tiles[k]));
        }
    }
}

proof fn export_begin_is_true(
    before: Seq<EffectModel>,
    m: Model,
    dest: Seq<char>,
    options: crate::export::ExportOptions,
)
    requires
        asked_by_the_record(before, m),
    ensures
        asked_by_the_record(before, m.export_begun(dest, options)),
{
    reveal(Model::export_begun);
    export_frames_are_true(m);
    match m.active {
        Some(dir) if m.export_targets().len() > 0 && m.export_progress is None => {
            let e = EffectModel::BeginExport {
                dir,
                dest,
                options,
                preset: m.roll.film(),
                base: m.roll.base_state(),
                start_date: m.roll.start_date,
                frames: m.export_frames(),
            };
            assert(goes_by_the_record(m, e));
            let running = Model {
                export_progress: Some((0usize, m.export_targets().len() as usize)),
                ..m
            };
            same_record_same_truth(before, m, running);
            same_truth_of_one(m, running, e);
            one_more_truth(before, running, e);
        },
        _ => {},
    }
}

proof fn export_is_true(m: Model, choice: Option<(String, crate::export::ExportOptions)>)
    ensures
        asked_by_the_record(m.effects, m.export_chosen(choice)),
{
    reveal(Model::export_chosen);
    let closed = Model { export_pending: false, ..m };
    nothing_is_true(closed);
    match choice {
        Some((dest, options)) => {
            export_begin_is_true(m.effects, closed, dest@, options);
        },
        None => {},
    }
}

/// Whatever message comes, all the work that is asked for goes by the record as
/// it is then: thumbnails, previews and exports carry the edits, the film and
/// the black point of the open roll's manifest, and covers the film of their
/// cards. What was asked for before stays asked for.
pub proof fn work_goes_by_the_record(m: Model, message: Message)
    ensures
        asked_by_the_record(m.effects, m.updated(message)),
{
    let synced = m.drafts_synced();
    nothing_is_true(synced);
    window_work_is_true(synced, message);
    detail_work_is_true(synced, message);
    editing_work_is_true(synced, message);
    frames_work_is_true(synced, message);
    drafts_work_is_true(synced, message);
    library_work_is_true(synced, message);
}

/// Whether a message is one that may change edits: editing, pasting, moving the
/// crop window, and opening or leaving a roll.
pub open spec fn may_edit(message: Message) -> bool {
    match message {
        Message::ExposureChanged(_)
        | Message::CurveChanged(_, _, _)
        | Message::AdjustEdit { .. }
        | Message::ResetAll
        | Message::ResetCrop
        | Message::PasteEdits
        | Message::Nav(_)
        | Message::RollOpened(_, _, _)
        | Message::DetailClosed => true,
        _ => false,
    }
}

proof fn pumps_leave_the_roll(m: Model, name: Seq<char>)
    ensures
        m.thumbs_pumped().roll == m.roll,
        m.covers_pumped().roll == m.roll,
        m.detail_pumped().roll == m.roll,
        m.neighbors_pumped(name).roll == m.roll,
{
    reveal(Model::thumbs_pumped);
    reveal(Model::covers_pumped);
    reveal(Model::detail_pumped);
    reveal(Model::detail_requested);
    reveal(Model::installed);
    reveal(Model::neighbors_pumped);
}

proof fn reflows_leave_the_roll(m: Model, dir: Seq<char>)
    ensures
        m.roll_reflowed(dir).roll == m.roll,
        m.base_reflowed().roll == m.roll,
{
    reveal(Model::roll_reflowed);
    reveal(Model::base_reflowed);
    reveal(Model::detail_dropped);
    reveal(Model::repumped);
    let none = Seq::<char>::empty();
    let a = Model {
        detail_cache: m.cache_without(dir),
        ..m.thumbs_reloading().detail_dropped()
    };
    pumps_leave_the_roll(a, none);
    let b = a.thumbs_pumped();
    pumps_leave_the_roll(b, none);
    pumps_leave_the_roll(b.detail_pumped(), state::or_empty(b.selected));
    let dropped = Model {
        detail_cache: Seq::empty(),
        ..m.roll_persisted().detail_dropped()
    }.thumbs_reloading();
    let c = match dropped.active {
        Some(dir) => dropped.cover_reloading(dir),
        None => dropped,
    };
    pumps_leave_the_roll(c, none);
    let d = c.thumbs_pumped();
    pumps_leave_the_roll(d, none);
    let e = d.covers_pumped();
    pumps_leave_the_roll(e, none);
    pumps_leave_the_roll(e.detail_pumped(), state::or_empty(e.selected));
}

proof fn commits_leave_the_roll(m: Model)
    ensures
        m.committed().roll == m.roll,
{
    reveal(Model::committed);
    reveal(Model::rebaked);
    reveal(Model::tile_reloading);
    reveal(Model::thumbs_pumped);
    reveal(Model::covers_pumped);
}

#[verifier::rlimit(30)]
proof fn library_leaves_the_edits(m: Model, message: Message)
    requires
        m.acted_drafts(message).roll.edits == m.roll.edits,
    ensures
        m.acted_library(message).roll.edits == m.roll.edits,
{
    reveal(Model::acted_library);
    match message {
        Message::RollsLoaded(rolls) => {
            crate::library_laws::scanned_rolls_are_listed(m, library::roll_models(rolls@));
        },
        Message::RollInfoLoaded(roll) => {
            crate::library_laws::listed_rolls_join_in_order(m, roll.model());
        },
        Message::CoverReady(_, _) => {
            reveal(Model::cover_decoded);
            reveal(Model::covers_pumped);
        },
        Message::RollAdded(_, _) => {
            reveal(Model::roll_added);
            reveal(Model::roll_opening);
            reveal(Model::covers_pumped);
        },
        Message::RollPresetChanged(dir, preset) => {
            crate::library_laws::changing_the_film(m, dir@, preset);
        },
        Message::RollBaseModeChanged(dir, mode) => {
            let none = Seq::<char>::empty();
            crate::library_laws::changing_the_strategy(m, dir@, mode, none);
        },
        Message::CalibrateBaseFromFrame(samples) => {
            reveal(Model::calibrated);
            match m.calibration_source() {
                Some((dir, name)) => {
                    let key = (dir, m.roll.film(), name);
                    match crate::film::plausibly_measured(samples@) {
                        Some(base) => {
                            reflows_leave_the_roll(
                                Model {
                                    detail_cache: crate::lru::touched(m.detail_cache, key),
                                    roll: m.roll.calibrated(name, Some(base)),
                                    ..m
                                },
                                dir,
                            );
                        },
                        None => {},
                    }
                },
                None => {},
            }
        },
        Message::CalibrationBaseMeasured(dir, name, base, manifest) => {
            reveal(Model::measurement_landed);
            let written = m.emitting(
                EffectModel::SaveManifest {
                    dir: dir@,
                    manifest: manifest.model().calibrated(name@, base),
                },
            );
            reflows_leave_the_roll(
                Model { roll: written.roll.calibrated(name@, base), ..written },
                dir@,
            );
            pumps_leave_the_roll(written.cover_reloading(dir@), dir@);
        },
        Message::RemoveRoll(_) | Message::RemoveSelectedRoll => {
            reveal(Model::roll_removed);
            reveal(Model::first_selected);
        },
        _ => {},
    }
}

#[verifier::rlimit(30)]
proof fn the_rest_leaves_the_edits(m: Model, message: Message)
    requires
        !may_edit(message),
    ensures
        m.acted_drafts(message).roll.edits == m.roll.edits,
{
    detail_leaves_the_edits(m, message);
    assert(m.acted_editing(message).roll.edits == m.roll.edits) by {
        reveal(Model::acted_editing);
        reveal(Model::edit_key_released);
        reveal(Model::copied);
        reveal(Model::crop_mode_toggled);
        commits_leave_the_roll(m);
        commits_leave_the_roll(Model { editing_key_held: false, ..m });
        commits_leave_the_roll(
            Model {
                detail: DetailState {
                    crop_mode: if m.detail.live is Some {
                        !m.detail.crop_mode
                    } else {
                        m.detail.crop_mode
                    },
                    ..m.detail
                },
                ..m
            }.emitting(EffectModel::ReclampZoom),
        );
    }
    assert(m.acted_frames(message).roll.edits == m.roll.edits) by {
        reveal(Model::acted_frames);
        match message {
            Message::OpenSelected => {
                reveal(Model::selection_opened);
                reveal(Model::roll_opening);
                match m.frame_selected {
                    Some(name) => {
                        opening_leaves_the_roll(m, name);
                    },
                    None => {},
                }
            },
            Message::ThumbnailActivated(name) => {
                opening_leaves_the_roll(m, name@);
            },
            Message::RollActivated(_) => {
                reveal(Model::roll_opening);
            },
            Message::FrameSelected(_) => {
                reveal(Model::frame_clicked);
            },
            Message::SelectAllFrames => {
                reveal(Model::all_selected);
            },
            Message::FrameInfoReady(_, _) => {
                reveal(Model::frame_info_read);
            },
            Message::ThumbReady(_, _) => {
                reveal(Model::thumb_decoded);
                reveal(Model::thumbs_pumped);
            },
            _ => {},
        }
    }
    reveal(Model::acted_drafts);
    reveal(Model::date_submitted);
    reveal(Model::name_submitted);
    reveal(Model::search_activated);
    reveal(Model::search_closed);
    reveal(Model::search_typed);
    reveal(Model::search_applied);
}

proof fn opening_leaves_the_roll(m: Model, name: Seq<char>)
    ensures
        m.frame_opened(name).roll == m.roll,
{
    reveal(Model::frame_opened);
    reveal(Model::frame_entered);
    let entered = if m.selected == Some(name) {
        m
    } else {
        m.frame_entered(name)
    };
    pumps_leave_the_roll(entered, name);
    pumps_leave_the_roll(entered.detail_pumped(), name);
}

#[verifier::rlimit(30)]
proof fn detail_leaves_the_edits(m: Model, message: Message)
    ensures
        m.acted_detail(message).roll.edits == m.roll.edits,
{
    assert(m.acted_window(message).roll.edits == m.roll.edits) by {
        reveal(Model::acted_window);
        reveal(Model::export_requested);
        reveal(Model::export_chosen);
        reveal(Model::export_begun);
        reveal(Model::export_finished);
        reveal(Model::context_toggled);
    }
    reveal(Model::acted_detail);
    reveal(Model::faded);
    reveal(Model::cursor_moved);
    let none = Seq::<char>::empty();
    match message {
        Message::DetailReady { name, preset, result, cap, one_to_one } => {
            reveal(Model::detail_finished);
            let free = m.result_taken(name@, preset, result, cap);
            assert(free.roll == m.roll) by {
                reveal(Model::result_taken);
                reveal(Model::landed);
                reveal(Model::stored);
                reveal(Model::installed);
                reveal(Model::zoom_held);
                reveal(Model::failure_reported);
            }
            pumps_leave_the_roll(free, none);
            pumps_leave_the_roll(Model { detail_inflight: None, ..m }, none);
        },
        Message::DetailPreloaded { .. } => {
            reveal(Model::preload_finished);
            reveal(Model::stored);
        },
        Message::DetailZoom { zoom, pan, one_to_one } => {
            reveal(Model::zoomed);
            pumps_leave_the_roll(
                Model { detail: DetailState { zoom, pan, ..m.detail }, ..m },
                none,
            );
        },
        _ => {},
    }
}

/// Edits change only by editing: any message that is not for that leaves the
/// edits of every frame as they are.
pub proof fn edits_change_only_by_editing(m: Model, message: Message, name: Seq<char>)
    requires
        !may_edit(message),
    ensures
        recorded(m.updated(message).roll, name) == recorded(m.roll, name),
{
    let synced = m.drafts_synced();
    the_rest_leaves_the_edits(synced, message);
    library_leaves_the_edits(synced, message);
}

} // verus!
