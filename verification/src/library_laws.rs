//! What the library page does to rolls: adding and removing them, their film,
//! their black point, their dates and their names.

use vstd::prelude::*;
use crate::dates;
use crate::edit_manifest::ManifestModel;
use crate::editing_laws::{asking_lasts, asks, beginnings_add_up, starting_decodes_is_all};
use crate::effect::EffectModel;
use crate::film;
use crate::film::{BaseMode, FilmPreset};
use crate::library;
use crate::library::{RollModel, SelectionModel, Thumb};
use crate::lru;
use crate::message::RollDateField;
use crate::message_laws::found_roll;
use crate::paths;
use crate::seqs;
use crate::single::Single;
use crate::state;
use crate::state::Model;

verus! {

/// Whether a place is that of the first roll of a directory.
pub open spec fn first_card(rolls: Seq<RollModel>, dir: Seq<char>, k: int) -> bool {
    &&& 0 <= k < rolls.len()
    &&& rolls[k].dir == dir
    &&& forall|j: int| 0 <= j < k ==> (#[trigger] rolls[j]).dir != dir
}

/// Whether the library has no roll of a directory.
pub open spec fn no_card(rolls: Seq<RollModel>, dir: Seq<char>) -> bool {
    forall|j: int| 0 <= j < rolls.len() ==> (#[trigger] rolls[j]).dir != dir
}

/// Whether at most the card at one place has changed, and that to `card`.
pub open spec fn only_card_changed(
    before: Seq<RollModel>,
    after: Seq<RollModel>,
    k: int,
    card: RollModel,
) -> bool {
    &&& after.len() == before.len()
    &&& after[k] == card
    &&& forall|j: int| 0 <= j < before.len() && j != k ==> #[trigger] after[j] == before[j]
}

proof fn missing_roll(m: Model, dir: Seq<char>)
    requires
        no_card(m.rolls, dir),
    ensures
        m.roll_at(dir) is None,
{
    seqs::first_where_is_first(m.rolls, state::in_dir(dir));
}

/// Decoding for the detail view asks for more, and changes neither the roll nor
/// the grids.
proof fn repump_asks_more(m: Model)
    ensures
        m.repumped().roll == m.roll,
        m.repumped().rolls == m.rolls,
        m.repumped().tiles == m.tiles,
        m.repumped().active == m.active,
        m.effects.is_prefix_of(m.repumped().effects),
{
    reveal(Model::repumped);
    reveal(Model::detail_pumped);
    reveal(Model::detail_requested);
    reveal(Model::installed);
    reveal(Model::neighbors_pumped);
}

/// Decoding a roll anew has all its thumbnails to be decoded, and drops the
/// picture on screen and the roll's overviews.
proof fn reflow_redraws(m: Model, dir: Seq<char>)
    ensures
        ({
            let after = m.roll_reflowed(dir);
            &&& after.roll == m.roll
            &&& after.rolls == m.rolls
            &&& after.active == m.active
            &&& after.tiles.len() == m.tiles.len()
            &&& forall|i: int|
                0 <= i < m.tiles.len() ==> (#[trigger] after.tiles[i]).thumb == Thumb::Loading
                    && after.tiles[i].name == m.tiles[i].name
            &&& m.effects.is_prefix_of(after.effects)
        }),
{
    reveal(Model::roll_reflowed);
    reveal(Model::detail_dropped);
    let a = Model {
        detail_cache: m.cache_without(dir),
        ..m.thumbs_reloading().detail_dropped()
    };
    starting_decodes_is_all(a);
    repump_asks_more(a.thumbs_pumped());
    beginnings_add_up(m.effects, a.thumbs_pumped().effects, m.roll_reflowed(dir).effects);
}

/// Decoding everything anew after the black point changed writes the manifest
/// first, and has all thumbnails and the roll's cover to be decoded.
proof fn base_reflow_redraws(m: Model, dir: Seq<char>)
    requires
        m.active == Some(dir),
    ensures
        ({
            let after = m.base_reflowed();
            &&& after.roll == m.roll
            &&& after.active == m.active
            &&& after.tiles.len() == m.tiles.len()
            &&& forall|i: int|
                0 <= i < m.tiles.len() ==> (#[trigger] after.tiles[i]).thumb == Thumb::Loading
                    && after.tiles[i].name == m.tiles[i].name
            &&& forall|k: int| #[trigger]
                first_card(m.rolls, dir, k) ==> only_card_changed(
                    m.rolls,
                    after.rolls,
                    k,
                    RollModel { thumb: Thumb::Loading, ..m.rolls[k] },
                )
            &&& m.effects.is_prefix_of(after.effects)
            &&& asks(m, after, EffectModel::SaveManifest { dir, manifest: m.roll })
        }),
{
    reveal(Model::base_reflowed);
    reveal(Model::detail_dropped);
    let saved = m.roll_persisted();
    let e = EffectModel::SaveManifest { dir, manifest: m.roll };
    let dropped = Model {
        detail_cache: Seq::empty(),
        ..saved.detail_dropped()
    }.thumbs_reloading();
    let cover = dropped.cover_reloading(dir);
    assert(cover.effects[m.effects.len() as int] == e);
    assert(asks(m, cover, e));
    starting_decodes_is_all(cover);
    let thumbs = cover.thumbs_pumped();
    starting_decodes_is_all(thumbs);
    let covers = thumbs.covers_pumped();
    repump_asks_more(covers);
    assert(m.effects.is_prefix_of(cover.effects));
    beginnings_add_up(m.effects, cover.effects, thumbs.effects);
    beginnings_add_up(m.effects, thumbs.effects, covers.effects);
    beginnings_add_up(m.effects, covers.effects, m.base_reflowed().effects);
    asking_lasts(m, cover, thumbs, e);
    asking_lasts(m, thumbs, covers, e);
    asking_lasts(m, covers, m.base_reflowed(), e);
    assert forall|k: int| #[trigger] first_card(m.rolls, dir, k) implies only_card_changed(
        m.rolls,
        m.base_reflowed().rolls,
        k,
        RollModel { thumb: Thumb::Loading, ..m.rolls[k] },
    ) by {
        found_roll(dropped, dir, k);
    }
}

/// Changing a roll's film records it on disk and on the roll's card, whose
/// cover is decoded anew. In the open roll the film is the new one from then
/// on, every thumbnail is decoded anew, and the edits, the strategy, the
/// calibration, the dates and the name stay.
pub proof fn changing_the_film(m: Model, dir: Seq<char>, preset: FilmPreset)
    ensures
        ({
            let after = m.preset_changed(dir, preset);
            &&& asks(m, after, EffectModel::RecordPreset { dir, preset })
            &&& forall|k: int| #[trigger]
                first_card(m.rolls, dir, k) ==> only_card_changed(
                    m.rolls,
                    after.rolls,
                    k,
                    RollModel { preset, thumb: Thumb::Loading, ..m.rolls[k] },
                )
            &&& no_card(m.rolls, dir) ==> after.rolls == m.rolls
            &&& m.active == Some(dir) ==> {
                &&& after.roll.film() == preset
                &&& after.roll == (ManifestModel { preset: after.roll.preset, ..m.roll })
                &&& forall|i: int|
                    0 <= i < m.tiles.len() ==> (#[trigger] after.tiles[i]).thumb == Thumb::Loading
                        && after.tiles[i].name == m.tiles[i].name
            }
            &&& m.active != Some(dir) ==> after.roll == m.roll && after.tiles == m.tiles
        }),
{
    reveal(Model::preset_changed);
    film::preset_keys_round_trip(preset);
    let e = EffectModel::RecordPreset { dir, preset };
    let named = m.emitting(e).card_preset(dir, preset);
    assert(named.effects[m.effects.len() as int] == e);
    assert(asks(m, named, e));
    starting_decodes_is_all(named);
    let carded = named.covers_pumped();
    asking_lasts(m, named, carded, e);
    let after = m.preset_changed(dir, preset);
    if m.active == Some(dir) {
        let set = Model { roll: carded.roll.with_film(preset), ..carded };
        reflow_redraws(set, dir);
        assert(asks(m, set, e)) by {
            let i = choose|i: int|
                m.effects.len() <= i < carded.effects.len() && #[trigger] carded.effects[i] == e;
            assert(set.effects[i] == e);
        }
        asking_lasts(m, set, after, e);
    }
    assert forall|k: int| #[trigger] first_card(m.rolls, dir, k) implies only_card_changed(
        m.rolls,
        after.rolls,
        k,
        RollModel { preset, thumb: Thumb::Loading, ..m.rolls[k] },
    ) by {
        found_roll(m.emitting(e), dir, k);
    }
    if no_card(m.rolls, dir) {
        missing_roll(m.emitting(e), dir);
    }
}

/// The frame that a roll would be calibrated from by default: the first on the
/// grid where it is open, else the one on its card.
pub open spec fn default_frame(m: Model, dir: Seq<char>, name: Seq<char>) -> bool {
    if m.active == Some(dir) {
        m.tiles.len() > 0 && m.tiles[0].name == name
    } else {
        exists|k: int| #[trigger] first_card(m.rolls, dir, k) && m.rolls[k].cover == Some(name)
    }
}

/// Whether one thing was asked for and another after it.
pub open spec fn asks_in_order(
    before: Model,
    after: Model,
    first: EffectModel,
    second: EffectModel,
) -> bool {
    exists|i: int, j: int|
        before.effects.len() <= i < j < after.effects.len() && #[trigger] after.effects[i] == first
            && #[trigger] after.effects[j] == second
}

proof fn order_lasts(m: Model, a: Model, b: Model, first: EffectModel, second: EffectModel)
    requires
        asks_in_order(m, a, first, second),
        a.effects.is_prefix_of(b.effects),
    ensures
        asks_in_order(m, b, first, second),
{
    let (i, j) = choose|i: int, j: int|
        m.effects.len() <= i < j < a.effects.len() && #[trigger] a.effects[i] == first
            && #[trigger] a.effects[j] == second;
    assert(b.effects.subrange(0, a.effects.len() as int)[i] == b.effects[i]);
    assert(b.effects.subrange(0, a.effects.len() as int)[j] == b.effects[j]);
    assert(b.effects[i] == first && b.effects[j] == second);
}

/// Changing a roll's strategy records it on disk and on the roll's card. The
/// strategy that goes by a designated frame designates the default one, unless
/// one is, and then asks for it to be measured, so that its clear film becomes
/// the roll's black point. Any other strategy drops the calibration.
pub proof fn changing_the_strategy(m: Model, dir: Seq<char>, mode: BaseMode, first: Seq<char>)
    ensures
        ({
            let after = m.base_mode_changed(dir, mode);
            &&& asks(m, after, EffectModel::RecordBaseMode { dir, mode })
            &&& forall|k: int| #[trigger]
                first_card(m.rolls, dir, k) ==> only_card_changed(
                    m.rolls,
                    after.rolls,
                    k,
                    RollModel { base_mode: mode, thumb: Thumb::Loading, ..m.rolls[k] },
                )
            &&& mode == BaseMode::AutoSelectedFrame && default_frame(m, dir, first)
                ==> asks_in_order(
                m,
                after,
                EffectModel::DesignateDefault { dir, name: first },
                EffectModel::MeasureCalibration { dir },
            )
            &&& mode != BaseMode::AutoSelectedFrame ==> asks(
                m,
                after,
                EffectModel::DropCalibration { dir },
            )
            &&& m.active == Some(dir) ==> {
                &&& after.roll.strategy() == mode
                &&& after.roll == (ManifestModel {
                    base_mode: after.roll.base_mode,
                    calibration_frame: after.roll.calibration_frame,
                    base: after.roll.base,
                    ..m.roll
                })
                &&& mode == BaseMode::AutoSelectedFrame ==> after.roll.base == m.roll.base && (
                m.roll.calibration_frame is Some ==> after.roll.calibration_frame
                    == m.roll.calibration_frame)
                &&& mode == BaseMode::AutoSelectedFrame && m.roll.calibration_frame is None
                    && m.tiles.len() > 0 ==> after.roll.calibration_frame == Some(m.tiles[0].name)
                &&& mode != BaseMode::AutoSelectedFrame ==> after.roll.base is None
                    && after.roll.calibration_frame is None
                &&& forall|i: int|
                    0 <= i < m.tiles.len() ==> (#[trigger] after.tiles[i]).thumb == Thumb::Loading
                        && after.tiles[i].name == m.tiles[i].name
            }
            &&& m.active != Some(dir) ==> after.roll == m.roll && after.tiles == m.tiles
        }),
{
    film::base_modes_round_trip(mode);
    let e = EffectModel::RecordBaseMode { dir, mode };
    let named = m.emitting(e).card_base_mode(dir, mode);
    assert(named.effects[m.effects.len() as int] == e);
    assert(asks(m, named, e));
    starting_decodes_is_all(named);
    let carded = named.covers_pumped();
    asking_lasts(m, named, carded, e);
    assert(m.effects.is_prefix_of(named.effects));
    beginnings_add_up(m.effects, named.effects, carded.effects);
    assert forall|k: int| #[trigger] first_card(m.rolls, dir, k) implies only_card_changed(
        m.rolls,
        carded.rolls,
        k,
        RollModel { base_mode: mode, thumb: Thumb::Loading, ..m.rolls[k] },
    ) && first_card(carded.rolls, dir, k) by {
        found_roll(m.emitting(e), dir, k);
        assert forall|j: int| 0 <= j < k implies (#[trigger] carded.rolls[j]).dir != dir by {
            assert(carded.rolls[j] == m.rolls[j]);
        }
    }
    let set = if mode == BaseMode::AutoSelectedFrame {
        carded.calibration_begun(dir)
    } else {
        carded.calibration_ended(dir)
    };
    let designate = EffectModel::DesignateDefault { dir, name: first };
    let measure = EffectModel::MeasureCalibration { dir };
    let drop = EffectModel::DropCalibration { dir };
    if mode == BaseMode::AutoSelectedFrame {
        if default_frame(m, dir, first) {
            if m.active != Some(dir) {
                let k = choose|k: int| #[trigger]
                    first_card(m.rolls, dir, k) && m.rolls[k].cover == Some(first);
                assert(first_card(carded.rolls, dir, k));
                found_roll(carded, dir, k);
                assert(carded.rolls[k].cover == Some(first));
            }
            assert(carded.first_frame(dir) == Some(first));
        }
        calibration_begins(carded, dir);
        if default_frame(m, dir, first) {
            assert(set.effects[carded.effects.len() as int] == designate);
            assert(set.effects[carded.effects.len() as int + 1] == measure);
            assert(asks_in_order(m, set, designate, measure));
        }
    } else {
        calibration_ends(carded, dir);
        assert(set.effects[carded.effects.len() as int] == drop);
        assert(asks(m, set, drop));
    }
    asking_lasts(m, carded, set, e);
    reveal(Model::base_mode_changed);
    let after = m.base_mode_changed(dir, mode);
    if set.active == Some(dir) {
        let last = Model { roll: set.roll.with_strategy(mode), ..set };
        reflow_redraws(last, dir);
        assert(last.effects == set.effects);
        asking_lasts(m, set, after, e);
        if mode == BaseMode::AutoSelectedFrame && default_frame(m, dir, first) {
            order_lasts(m, set, after, designate, measure);
        }
        if mode != BaseMode::AutoSelectedFrame {
            asking_lasts(m, set, after, drop);
        }
    }
}

proof fn calibration_begins(m: Model, dir: Seq<char>)
    ensures
        ({
            let after = m.calibration_begun(dir);
            &&& after == (Model { roll: after.roll, effects: after.effects, ..m })
            &&& m.effects.is_prefix_of(after.effects)
            &&& after.roll == (ManifestModel {
                calibration_frame: after.roll.calibration_frame,
                ..m.roll
            })
            &&& m.active != Some(dir) ==> after.roll == m.roll
            &&& m.roll.calibration_frame is Some ==> after.roll == m.roll
            &&& m.active == Some(dir) && m.roll.calibration_frame is None && m.tiles.len() > 0
                ==> after.roll.calibration_frame == Some(m.tiles[0].name)
            &&& m.first_frame(dir) is Some ==> after.effects == m.effects.push(
                EffectModel::DesignateDefault { dir, name: m.first_frame(dir).unwrap() },
            ).push(EffectModel::MeasureCalibration { dir })
        }),
{
    reveal(Model::calibration_begun);
}

proof fn calibration_ends(m: Model, dir: Seq<char>)
    ensures
        ({
            let after = m.calibration_ended(dir);
            &&& after == (Model { roll: after.roll, effects: after.effects, ..m })
            &&& after.effects == m.effects.push(EffectModel::DropCalibration { dir })
            &&& m.active != Some(dir) ==> after.roll == m.roll
            &&& m.active == Some(dir) ==> after.roll == (ManifestModel {
                calibration_frame: None,
                base: None,
                ..m.roll
            })
        }),
{
    reveal(Model::calibration_ended);
}

/// Calibrating from the viewed frame, under the strategy that goes by a
/// designated frame: one whose overview is cached becomes the calibration frame
/// with the base that its samples show, and everything is decoded anew; another
/// is designated, the manifest is written, and the frame is measured.
pub proof fn calibrating_from_the_viewed_frame(
    m: Model,
    dir: Seq<char>,
    name: Seq<char>,
    samples: Seq<Single>,
)
    requires
        m.active == Some(dir),
        m.selected == Some(name) || (m.selected is None && m.frame_selected == Some(name)),
        m.roll.strategy() == BaseMode::AutoSelectedFrame,
    ensures
        ({
            let after = m.calibrated(samples);
            let cached = lru::holds(m.detail_cache, (dir, m.roll.film(), name));
            let base = film::plausibly_measured(samples);
            &&& !cached ==> {
                &&& after.roll == (ManifestModel { calibration_frame: Some(name), ..m.roll })
                &&& asks_in_order(
                    m,
                    after,
                    EffectModel::SaveManifest { dir, manifest: after.roll },
                    EffectModel::MeasureFrame { dir, name, preset: m.roll.film() },
                )
            }
            &&& cached && base is Some ==> {
                &&& after.roll == (ManifestModel { calibration_frame: Some(name), base, ..m.roll })
                &&& asks(m, after, EffectModel::SaveManifest { dir, manifest: after.roll })
                &&& forall|i: int|
                    0 <= i < m.tiles.len() ==> (#[trigger] after.tiles[i]).thumb == Thumb::Loading
            }
        }),
{
    reveal(Model::calibrated);
    let after = m.calibrated(samples);
    let key = (dir, m.roll.film(), name);
    assert(m.calibration_source() == Some((dir, name)));
    if lru::holds(m.detail_cache, key) {
        match film::plausibly_measured(samples) {
            Some(base) => {
                let set = Model {
                    detail_cache: lru::touched(m.detail_cache, key),
                    roll: m.roll.calibrated(name, Some(base)),
                    ..m
                };
                base_reflow_redraws(set, dir);
                let e = EffectModel::SaveManifest { dir, manifest: after.roll };
                assert(asks(set, after, e));
                let i = choose|i: int|
                    set.effects.len() <= i < after.effects.len() && #[trigger] after.effects[i]
                        == e;
                assert(after.effects[i] == e);
            },
            None => {},
        }
    } else {
        let k = m.effects.len() as int;
        assert(after.effects[k] == EffectModel::SaveManifest { dir, manifest: after.roll });
        assert(after.effects[k + 1] == EffectModel::MeasureFrame {
            dir,
            name,
            preset: m.roll.film(),
        });
    }
}

/// A measured base is recorded with its frame, in the manifest on disk and in
/// the open roll, whose pictures are all decoded anew; of a roll that is not
/// open the cover is.
pub proof fn measured_bases_are_recorded(
    m: Model,
    dir: Seq<char>,
    name: Seq<char>,
    base: Single,
    on_disk: ManifestModel,
)
    requires
        on_disk.strategy() == BaseMode::AutoSelectedFrame,
        on_disk.calibration_frame == Some(name),
    ensures
        ({
            let after = m.measurement_landed(dir, name, Some(base), on_disk);
            &&& asks(
                m,
                after,
                EffectModel::SaveManifest {
                    dir,
                    manifest: ManifestModel { base: Some(base), ..on_disk },
                },
            )
            &&& m.active == Some(dir) ==> {
                &&& after.roll == (ManifestModel {
                    calibration_frame: Some(name),
                    base: Some(base),
                    ..m.roll
                })
                &&& forall|i: int|
                    0 <= i < m.tiles.len() ==> (#[trigger] after.tiles[i]).thumb == Thumb::Loading
            }
            &&& m.active != Some(dir) ==> after.roll == m.roll
            &&& forall|k: int| #[trigger]
                first_card(m.rolls, dir, k) ==> only_card_changed(
                    m.rolls,
                    after.rolls,
                    k,
                    RollModel { thumb: Thumb::Loading, ..m.rolls[k] },
                )
        }),
{
    reveal(Model::measurement_landed);
    let after = m.measurement_landed(dir, name, Some(base), on_disk);
    let e = EffectModel::SaveManifest { dir, manifest: on_disk.calibrated(name, Some(base)) };
    assert(on_disk.calibrated(name, Some(base)) == ManifestModel { base: Some(base), ..on_disk });
    let written = m.emitting(e);
    let set = Model { roll: written.roll.calibrated(name, Some(base)), ..written };
    assert(set.effects[m.effects.len() as int] == e);
    if m.active == Some(dir) {
        base_reflow_redraws(set, dir);
        asking_lasts(m, set, after, e);
        assert forall|k: int| #[trigger] first_card(m.rolls, dir, k) implies only_card_changed(
            m.rolls,
            after.rolls,
            k,
            RollModel { thumb: Thumb::Loading, ..m.rolls[k] },
        ) by {
            assert(first_card(set.rolls, dir, k));
        }
    } else {
        let lit = written.cover_reloading(dir);
        assert(lit.effects[m.effects.len() as int] == e);
        starting_decodes_is_all(lit);
        asking_lasts(m, lit, after, e);
        assert forall|k: int| #[trigger] first_card(m.rolls, dir, k) implies only_card_changed(
            m.rolls,
            after.rolls,
            k,
            RollModel { thumb: Thumb::Loading, ..m.rolls[k] },
        ) by {
            found_roll(written, dir, k);
        }
    }
}

/// A roll that is opened is the open one, with nothing of it selected yet, and
/// its frames are asked for; what was edited in another roll is written before.
pub proof fn opening_a_roll(m: Model, dir: Seq<char>)
    ensures
        ({
            let after = m.roll_opening(dir);
            &&& after.active == Some(dir)
            &&& m.active == Some(dir) ==> after == m
            &&& m.active != Some(dir) ==> {
                &&& after.selected is None
                &&& after.frame_selected is None
                &&& after.selected_frames == Set::<Seq<char>>::empty()
                &&& after.selection_anchor is None
                &&& after.detail.live is None && !after.detail.crop_mode
                &&& after.rolls == m.rolls && after.config == m.config
                &&& after.library_selection == m.library_selection
                &&& after.clipboard == m.clipboard
                &&& after.drawer.page == crate::drawer::ContextPage::FrameInfo
                &&& !after.drawer.show && after.drawer.memory == m.drawer.memory
                &&& after.effects == (match m.active {
                    Some(old) => m.effects.push(
                        EffectModel::SaveManifest { dir: old, manifest: m.roll },
                    ),
                    None => m.effects,
                }).push(EffectModel::LoadFiles { dir })
            }
        }),
{
    reveal(Model::roll_opening);
}

/// A roll that is added is recorded with its film, scanned for its card, and
/// opened; if the library does not have it, it goes into the configuration,
/// which is written. A card that it has shows the film.
pub proof fn adding_a_roll(m: Model, given: Seq<char>, preset: FilmPreset)
    ensures
        ({
            let dir = paths::tidied(given);
            let after = m.roll_added(given, preset);
            &&& after.active == Some(dir)
            &&& after.library_selection == Some(SelectionModel::Roll(dir))
            &&& asks(m, after, EffectModel::RecordPreset { dir, preset })
            &&& asks(m, after, EffectModel::ScanRoll { dir })
            &&& m.active != Some(dir) ==> asks(m, after, EffectModel::LoadFiles { dir })
            &&& no_card(m.rolls, dir) ==> after.config == m.config.push(given) && asks(
                m,
                after,
                EffectModel::PersistConfig { rolls: after.config },
            ) && after.rolls == m.rolls
            &&& forall|k: int| #[trigger]
                first_card(m.rolls, dir, k) ==> after.config == m.config && only_card_changed(
                    m.rolls,
                    after.rolls,
                    k,
                    RollModel { preset, thumb: Thumb::Loading, ..m.rolls[k] },
                )
        }),
{
    reveal(Model::roll_added);
    let dir = paths::tidied(given);
    let known = if m.roll_at(dir) is Some {
        m
    } else {
        Model { config: m.config.push(given), ..m }.config_persisted()
    };
    let record = EffectModel::RecordPreset { dir, preset };
    let scan = EffectModel::ScanRoll { dir };
    let load = EffectModel::LoadFiles { dir };
    let persist = EffectModel::PersistConfig { rolls: m.config.push(given) };
    let chosen = known.emitting(record).card_preset(dir, preset).selecting(
        SelectionModel::Roll(dir),
    ).emitting(scan);
    let n = known.effects.len() as int;
    assert(chosen.effects[n] == record);
    assert(chosen.effects[n + 1] == scan);
    assert(asks(m, chosen, record) && asks(m, chosen, scan));
    opening_a_roll(chosen, dir);
    let open = chosen.roll_opening(dir);
    assert(chosen.effects.is_prefix_of(open.effects));
    asking_lasts(m, chosen, open, record);
    asking_lasts(m, chosen, open, scan);
    starting_decodes_is_all(open);
    let after = m.roll_added(given, preset);
    asking_lasts(m, open, after, record);
    asking_lasts(m, open, after, scan);
    if m.active != Some(dir) {
        assert(open.effects[open.effects.len() - 1] == load);
        assert(asks(m, open, load));
        asking_lasts(m, open, after, load);
    }
    assert forall|k: int| #[trigger] first_card(m.rolls, dir, k) implies after.config == m.config
        && only_card_changed(
        m.rolls,
        after.rolls,
        k,
        RollModel { preset, thumb: Thumb::Loading, ..m.rolls[k] },
    ) by {
        found_roll(m, dir, k);
        found_roll(known.emitting(record), dir, k);
    }
    if no_card(m.rolls, dir) {
        missing_roll(m, dir);
        missing_roll(known.emitting(record), dir);
        assert(chosen.effects[m.effects.len() as int] == persist);
        assert(asks(m, chosen, persist));
        asking_lasts(m, chosen, open, persist);
        asking_lasts(m, open, after, persist);
    }
}

/// Taking a roll off the library leaves all other rolls where they are, and the
/// configuration without that directory, however it is spelled there, but with
/// all others. A selection of that roll moves on to another or is gone.
pub proof fn removing_a_roll(m: Model, dir: Seq<char>, k: int)
    requires
        m.active is None,
        first_card(m.rolls, dir, k),
    ensures
        ({
            let after = m.roll_removed(dir);
            &&& no_card(after.rolls, dir)
            &&& after.rolls == m.rolls.filter(|r: RollModel| r.dir != dir)
            &&& after.config == m.config.filter(
                |c: Seq<char>| paths::tidied(c) != paths::tidied(dir),
            )
            &&& after.library_selection != Some(SelectionModel::Roll(dir))
            &&& m.library_selection is Some && m.library_selection != Some(
                SelectionModel::Roll(dir),
            ) ==> after.library_selection == m.library_selection
            &&& after.roll == m.roll
        }),
{
    reveal(Model::roll_removed);
    reveal(Model::first_selected);
    found_roll(m, dir, k);
    let after = m.roll_removed(dir);
    let other = |r: RollModel| r.dir != dir;
    let spelled = |c: Seq<char>| paths::tidied(c) != paths::tidied(dir);
    assert(crate::library_page::elsewhere(dir) == other);
    assert(crate::library_page::spells_other(dir) == spelled);
    assert(after.rolls == m.rolls.filter(other));
    assert forall|j: int| 0 <= j < after.rolls.len() implies (#[trigger] after.rolls[j]).dir
        != dir by {
        m.rolls.lemma_filter_pred(other, j);
    }
    let listed = Model {
        config: m.config.filter(crate::library_page::spells_other(dir)),
        ..m
    }.config_persisted();
    let less = Model {
        rolls: listed.rolls.filter(crate::library_page::elsewhere(dir)),
        ..listed
    };
    let free = if less.library_selection == Some(SelectionModel::Roll(dir)) {
        less.deselected()
    } else {
        less
    };
    fallback_is_listed(free);
}

/// Where nothing is selected on the library page, the first roll that the
/// search leaves is selected; otherwise the selection stays.
pub proof fn fallback_is_listed(m: Model)
    ensures
        ({
            let after = m.first_selected();
            let query = state::or_empty(m.search_filter);
            let places = library::grid_places(m.rolls, query, m.month_aliases);
            &&& m.library_selection is Some || m.active is Some ==> after == m
            &&& m.library_selection is None && m.active is None && places.len() > 0
                ==> after.library_selection == Some(SelectionModel::Roll(m.rolls[places[0]].dir))
                && 0 <= places[0] < m.rolls.len() && library::answers_all(
                m.rolls[places[0]],
                library::query_terms(query, m.month_aliases),
            )
            &&& places.len() == 0 ==> after == m
            &&& after.rolls == m.rolls && after.config == m.config && after.effects == m.effects
                && after.roll == m.roll && after.drawer == m.drawer && after.active == m.active
        }),
{
    reveal(Model::first_selected);
    let query = state::or_empty(m.search_filter);
    let terms = library::query_terms(query, m.month_aliases);
    let places = library::grid_places(m.rolls, query, m.month_aliases);
    if places.len() > 0 {
        library::grid_places_in_order(m.rolls, query, m.month_aliases);
        let picked = library::answering_places(m.rolls, terms, m.rolls.len() as int);
        assert(picked.contains(places[0]));
    }
}

/// The rolls of a scan are the library's rolls, and a selection that names none
/// of them is dropped.
pub proof fn scanned_rolls_are_listed(m: Model, rolls: Seq<RollModel>)
    ensures
        m.rolls_loaded(rolls).rolls == rolls,
        forall|dir: Seq<char>|
            m.library_selection == Some(SelectionModel::Roll(dir)) && no_card(rolls, dir)
                ==> #[trigger] m.rolls_loaded(rolls).library_selection != Some(
                SelectionModel::Roll(dir),
            ),
        m.rolls_loaded(rolls).roll == m.roll,
        m.rolls_loaded(rolls).config == m.config,
{
    reveal(Model::rolls_loaded);
    let fresh = Model { rolls, cover_inflight: Seq::empty(), ..m };
    let sound = if fresh.selection_stale() {
        fresh.deselected()
    } else {
        fresh
    };
    fallback_is_listed(sound);
    starting_decodes_is_all(sound.first_selected());
    assert forall|dir: Seq<char>|
        m.library_selection == Some(SelectionModel::Roll(dir)) && no_card(rolls, dir) implies
        m.rolls_loaded(rolls).library_selection != Some(SelectionModel::Roll(dir)) by {
        missing_roll(fresh, dir);
        let query = state::or_empty(sound.search_filter);
        let places = library::grid_places(sound.rolls, query, sound.month_aliases);
        if sound.active is None && places.len() > 0 {
            assert(rolls[places[0]].dir != dir);
        }
    }
}

/// A scanned roll joins the library, with all that were there, in name order;
/// one whose directory is there already does not.
pub proof fn listed_rolls_join_in_order(m: Model, roll: RollModel)
    ensures
        ({
            let after = m.roll_listed(roll);
            &&& no_card(m.rolls, roll.dir) ==> library::names_ascend(after.rolls)
                && after.rolls.to_multiset() == m.rolls.push(roll).to_multiset()
            &&& !no_card(m.rolls, roll.dir) ==> after == m
            &&& after.roll == m.roll && after.active == m.active
        }),
{
    reveal(Model::roll_listed);
    library::sorting_by_name_sorts(m.rolls.push(roll));
    let more = Model { rolls: library::sorted_by_name(m.rolls.push(roll)), ..m };
    starting_decodes_is_all(more);
    if no_card(m.rolls, roll.dir) {
        missing_roll(m, roll.dir);
    } else {
        let j = choose|j: int| 0 <= j < m.rolls.len() && (#[trigger] m.rolls[j]).dir == roll.dir;
        seqs::first_where_is_first(m.rolls, state::in_dir(roll.dir));
        assert(state::in_dir(roll.dir)(m.rolls[j]));
    }
}

/// A decoded cover is shown on the card of its roll, and one that failed is
/// marked so; no other card changes, and the roll's decode is over.
pub proof fn covers_land_on_their_card(m: Model, dir: Seq<char>, picture: Option<u64>)
    ensures
        ({
            let after = m.cover_decoded(dir, picture);
            &&& forall|k: int| #[trigger]
                first_card(m.rolls, dir, k) ==> only_card_changed(
                    m.rolls,
                    after.rolls,
                    k,
                    RollModel {
                        thumb: match picture {
                            Some(p) => Thumb::Ready(p),
                            None => Thumb::Failed,
                        },
                        ..m.rolls[k]
                    },
                )
            &&& no_card(m.rolls, dir) ==> after.rolls == m.rolls && !after.cover_inflight.contains(
                dir,
            )
        }),
{
    reveal(Model::cover_decoded);
    let shown = match m.roll_at(dir) {
        Some(k) => m.with_cover(k, crate::library_page::decoded(picture)),
        None => m,
    };
    let free = Model { cover_inflight: seqs::without(shown.cover_inflight, dir), ..shown };
    starting_decodes_is_all(free);
    assert forall|k: int| #[trigger] first_card(m.rolls, dir, k) implies only_card_changed(
        m.rolls,
        m.cover_decoded(dir, picture).rolls,
        k,
        RollModel {
            thumb: match picture {
                Some(p) => Thumb::Ready(p),
                None => Thumb::Failed,
            },
            ..m.rolls[k]
        },
    ) by {
        found_roll(m, dir, k);
    }
    if no_card(m.rolls, dir) {
        missing_roll(m, dir);
        reveal(Model::covers_pumped);
        let after = m.cover_decoded(dir, picture);
        if after.cover_inflight.contains(dir) {
            let i = choose|i: int|
                0 <= i < after.cover_inflight.len() && after.cover_inflight[i] == dir;
            let test = seqs::other_than(dir);
            if i < free.cover_inflight.len() {
                m.cover_inflight.lemma_filter_pred(test, i);
            } else {
                let r = free.next_covers()[i - free.cover_inflight.len()];
                let waits = crate::pumps::cover_waits(free.cover_inflight);
                assert(free.rolls.filter(waits)[i - free.cover_inflight.len()] == r);
                free.rolls.lemma_filter_contains_rev(waits, r);
                let j = choose|j: int| 0 <= j < free.rolls.len() && free.rolls[j] == r;
                assert(m.rolls[j].dir == dir);
            }
        }
    }
}

/// Selecting a cell of the library selects it, and seeds the drafts anew where
/// it is another roll; nothing else changes.
pub proof fn selecting_a_cell(m: Model, selection: SelectionModel)
    ensures
        m.selecting(selection).library_selection == Some(selection),
        m.selecting(selection) == (Model {
            library_selection: Some(selection),
            roll_date_drafts: m.selecting(selection).roll_date_drafts,
            roll_name_draft: m.selecting(selection).roll_name_draft,
            ..m
        }),
{
}

/// A submitted date, if it is one and leaves the roll's dates in order, is the
/// selected roll's from then on: on its card, in the drafts, and on disk,
/// beside the other date, which stays. An empty field takes the date away.
pub proof fn submitted_dates_are_recorded(
    m: Model,
    field: RollDateField,
    dir: Seq<char>,
    k: int,
    date: Option<Seq<char>>,
)
    requires
        m.library_selection == Some(SelectionModel::Roll(dir)),
        first_card(m.rolls, dir, k),
        ({
            let typed = library::trimmed_text(
                match field {
                    RollDateField::Start => m.roll_date_drafts.start,
                    RollDateField::End => m.roll_date_drafts.end,
                },
            );
            match date {
                Some(d) => d == typed && d.len() > 0 && dates::iso_date(d) is Some,
                None => typed.len() == 0,
            }
        }),
    ensures
        ({
            let after = m.date_submitted(field);
            let (start, end) = match field {
                RollDateField::Start => (date, m.rolls[k].end_date),
                RollDateField::End => (m.rolls[k].start_date, date),
            };
            &&& dates::dates_coherent(start, end) ==> {
                &&& only_card_changed(
                    m.rolls,
                    after.rolls,
                    k,
                    RollModel { start_date: start, end_date: end, ..m.rolls[k] },
                )
                &&& after.effects == m.effects.push(EffectModel::RecordDates { dir, start, end })
                &&& after.roll_date_drafts.key == Some(dir)
                &&& after.roll_date_drafts.start == state::or_empty(start)
                &&& after.roll_date_drafts.end == state::or_empty(end)
            }
            &&& !dates::dates_coherent(start, end) ==> after.rolls == m.rolls && after.effects
                == m.effects
        }),
{
    reveal(Model::date_submitted);
    found_roll(m, dir, k);
}

/// A submitted name is the selected roll's from then on, on its card and on
/// disk. An empty one gives the roll the name of its directory again.
pub proof fn submitted_names_are_recorded(m: Model, dir: Seq<char>, k: int)
    requires
        m.library_selection == Some(SelectionModel::Roll(dir)),
        first_card(m.rolls, dir, k),
    ensures
        ({
            let after = m.name_submitted();
            let typed = library::trimmed_text(m.roll_name_draft);
            let given = after.rolls[k].name;
            &&& only_card_changed(
                m.rolls,
                after.rolls,
                k,
                RollModel { name: given, ..m.rolls[k] },
            )
            &&& after.roll_name_draft == given
            &&& typed.len() > 0 ==> given == typed && after.effects == m.effects.push(
                EffectModel::RecordName { dir, name: Some(typed) },
            )
            &&& typed.len() == 0 ==> after.effects == m.effects.push(
                EffectModel::RecordName { dir, name: None },
            )
            &&& typed.len() == 0 && paths::file_name(dir) is Some ==> given == paths::file_name(
                dir,
            ).unwrap()
        }),
{
    reveal(Model::name_submitted);
    found_roll(m, dir, k);
}

/// The search: asked for on the library page it is shown, empty and focused;
/// what is typed is shown at once and applied when its time has come, unless
/// more was typed; putting it away shows all rolls again.
pub proof fn searching(m: Model, term: Seq<char>)
    ensures
        m.active is None && m.search is None ==> m.search_activated().search == Some(
            Seq::<char>::empty(),
        ) && m.search_activated().effects == m.effects.push(EffectModel::FocusSearch),
        m.active is Some ==> m.search_activated() == m,
        m.search_typed(term).search == Some(term),
        m.search_typed(term).search_filter == m.search_filter,
        m.search_typed(term).search_version != m.search_version,
        m.search_typed(term).effects == m.effects.push(
            EffectModel::SearchTimer { term, version: m.search_typed(term).search_version },
        ),
        m.search_applied(term, m.search_version) == (Model { search_filter: Some(term), ..m }),
        forall|version: u64|
            version != m.search_version ==> #[trigger] m.search_applied(term, version) == m,
        m.search_closed().search is None,
        m.search_closed().search_filter is None,
        m.search_closed().search_version != m.search_version,
        m.search_closed().rolls == m.rolls,
{
    reveal(Model::search_activated);
    reveal(Model::search_typed);
    reveal(Model::search_applied);
    reveal(Model::search_closed);
}

/// Opening what is selected: inside a roll the highlighted frame, in the
/// library the selected roll, or the folder picker from the Add Roll tile.
pub proof fn opening_what_is_selected(m: Model)
    ensures
        match (m.active, m.frame_selected, m.library_selection) {
            (Some(_), Some(name), _) => m.selection_opened() == m.frame_opened(name),
            (Some(_), None, _) => m.selection_opened() == m,
            (None, _, Some(SelectionModel::Roll(dir))) => m.selection_opened() == m.roll_opening(
                dir,
            ),
            (None, _, Some(SelectionModel::AddRoll)) => m.selection_opened().effects
                == m.effects.push(EffectModel::OpenRollPicker),
            (None, _, None) => m.selection_opened() == m,
        },
{
    reveal(Model::selection_opened);
}

} // verus!
