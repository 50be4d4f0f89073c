//! What editing does to a frame: which control a key or slider moves, what is
//! left alone, and that the manifest follows the screen.

use vstd::prelude::*;
use crate::crop;
use crate::edit_manifest::{CropMargins, EditData, ManifestModel, ToneEdit};
use crate::editing;
use crate::effect::EffectModel;
use crate::library::{MoveDir, RollModel, Thumb};
use crate::message::EditAdjust;
use crate::raster;
use crate::seqs;
use crate::single::Single;
use crate::state;
use crate::state::{DetailState, Model, TileModel};
use crate::work_laws;
use crate::work_laws::recorded;

verus! {

/// Whether something was asked for between two states.
pub open spec fn asks(before: Model, after: Model, e: EffectModel) -> bool {
    exists|i: int| before.effects.len() <= i < after.effects.len() && #[trigger] after.effects[i] == e
}

/// What is asked for stays asked for as long as work is only added.
pub proof fn asking_lasts(m: Model, a: Model, b: Model, e: EffectModel)
    requires
        asks(m, a, e),
        a.effects.is_prefix_of(b.effects),
    ensures
        asks(m, b, e),
{
    let i = choose|i: int| m.effects.len() <= i < a.effects.len() && #[trigger] a.effects[i] == e;
    assert(b.effects.subrange(0, a.effects.len() as int)[i] == b.effects[i]);
    assert(b.effects[i] == e);
}

/// A beginning of a beginning is a beginning.
pub proof fn beginnings_add_up(a: Seq<EffectModel>, b: Seq<EffectModel>, c: Seq<EffectModel>)
    requires
        a.is_prefix_of(b),
        b.is_prefix_of(c),
    ensures
        a.is_prefix_of(c),
{
    assert forall|i: int| 0 <= i < a.len() implies a[i] == c[i] by {
        assert(b.subrange(0, a.len() as int)[i] == b[i]);
        assert(c.subrange(0, b.len() as int)[i] == c[i]);
    }
    assert(a =~= c.subrange(0, a.len() as int));
}

/// Whether a change of the open frame's edits is all that happened: on screen
/// they are `shown`, in the manifest `kept`, and the edits of all other frames,
/// and whatever else the manifest records, are as they were.
pub open spec fn only_edits_changed(
    m: Model,
    after: Model,
    name: Seq<char>,
    shown: EditData,
    kept: EditData,
) -> bool {
    &&& after.detail == (DetailState { edit: shown, ..m.detail })
    &&& recorded(after.roll, name) == kept
    &&& after.roll.edits.dom().contains(name)
    &&& forall|n: Seq<char>|
        n != name ==> #[trigger] recorded(after.roll, n) == recorded(m.roll, n)
    &&& after.roll == (ManifestModel { edits: after.roll.edits, ..m.roll })
}

/// Whether a value is another one held between two bounds.
pub open spec fn is_held(r: Single, x: Single, low: Single, high: Single) -> bool {
    &&& x.lt(low) ==> r == low
    &&& high.lt(x) ==> r == high
    &&& !x.lt(low) && !high.lt(x) ==> r == x
}

/// The range of an exposure, from three stops under to four over.
pub open spec fn exposure_held(r: Single, x: Single) -> bool {
    is_held(r, x, Single { bits: 0xc040_0000 }, Single { bits: 0x4080_0000 })
}

/// The range of a power, from a quarter to four.
pub open spec fn power_held(r: Single, x: Single) -> bool {
    is_held(r, x, Single { bits: 0x3e80_0000 }, Single { bits: 0x4080_0000 })
}

proof fn one_entry(m: Model, name: Seq<char>, data: EditData)
    ensures
        recorded(m.roll.with_edits(name, data), name) == data,
        forall|n: Seq<char>|
            n != name ==> #[trigger] recorded(m.roll.with_edits(name, data), n) == recorded(
                m.roll,
                n,
            ),
{
}

/// A slider sets what it is for, on screen and in the manifest, and nothing
/// else: the exposure leaves the curve, the crop and the rotation alone, and
/// the curve the exposure, the crop and the rotation.
pub proof fn sliders_set_their_own(
    m: Model,
    name: Seq<char>,
    ev: Single,
    contrast: Single,
    rolloff: Single,
    shadows: Single,
)
    requires
        m.selected == Some(name),
    ensures
        only_edits_changed(
            m,
            m.exposure_set(ev),
            name,
            EditData { exposure_ev: ev, ..m.detail.edit },
            EditData { exposure_ev: ev, ..recorded(m.roll, name) },
        ),
        m.exposure_set(ev).effects == m.effects,
        only_edits_changed(
            m,
            m.curve_set(contrast, rolloff, shadows),
            name,
            EditData {
                curve_contrast: contrast,
                curve_rolloff: rolloff,
                curve_shadows: shadows,
                ..m.detail.edit
            },
            EditData {
                curve_contrast: contrast,
                curve_rolloff: rolloff,
                curve_shadows: shadows,
                ..recorded(m.roll, name)
            },
        ),
        m.curve_set(contrast, rolloff, shadows).effects == m.effects,
{
    reveal(Model::exposure_set);
    reveal(Model::curve_set);
    one_entry(m, name, EditData { exposure_ev: ev, ..recorded(m.roll, name) });
    one_entry(
        m,
        name,
        EditData {
            curve_contrast: contrast,
            curve_rolloff: rolloff,
            curve_shadows: shadows,
            ..recorded(m.roll, name)
        },
    );
}

/// Outside crop mode each key moves its own control of the open frame, held to
/// the control's range, and leaves the others as they are, on screen and in
/// the manifest.
pub proof fn keys_move_their_own_control(
    m: Model,
    name: Seq<char>,
    adjust: EditAdjust,
    moved: Single,
)
    requires
        m.selected == Some(name),
        !m.detail.crop_mode,
    ensures
        ({
            let after = m.edit_key_pressed(adjust, moved);
            let was = m.detail.edit;
            let now = after.detail.edit;
            let kept = recorded(after.roll, name);
            let held = recorded(m.roll, name);
            &&& after.editing_key_held
            &&& only_edits_changed(m, after, name, now, kept)
            &&& adjust is Exposure ==> exposure_held(now.exposure_ev, moved) && kept.exposure_ev
                == now.exposure_ev && kept.curve_contrast == held.curve_contrast
                && kept.curve_rolloff == held.curve_rolloff && kept.curve_shadows
                == held.curve_shadows
            &&& !(adjust is Exposure) ==> now.exposure_ev == was.exposure_ev && kept.exposure_ev
                == held.exposure_ev
            &&& adjust is Contrast ==> power_held(now.curve_contrast, moved)
            &&& !(adjust is Contrast) ==> now.curve_contrast == was.curve_contrast
            &&& adjust is Rolloff ==> power_held(now.curve_rolloff, moved)
            &&& !(adjust is Rolloff) ==> now.curve_rolloff == was.curve_rolloff
            &&& adjust is Shadows ==> power_held(now.curve_shadows, moved)
            &&& !(adjust is Shadows) ==> now.curve_shadows == was.curve_shadows
            &&& adjust is Contrast || adjust is Rolloff || adjust is Shadows
                ==> kept.curve_contrast == now.curve_contrast && kept.curve_rolloff
                == now.curve_rolloff && kept.curve_shadows == now.curve_shadows
            &&& adjust is RotateCcw ==> now.rotation == (was.rotation + 1) % 4 && kept.rotation
                == now.rotation && kept.curve_contrast == held.curve_contrast
                && kept.curve_rolloff == held.curve_rolloff && kept.curve_shadows
                == held.curve_shadows
            &&& !(adjust is RotateCcw) ==> now.rotation == was.rotation && kept.rotation
                == held.rotation
            &&& now.crop == was.crop && kept.crop == held.crop
        }),
{
    reveal(Model::edit_key_pressed);
    reveal(Model::adjusted);
    reveal(Model::exposure_set);
    reveal(Model::curve_set);
    reveal(Model::rotation_set);
}

/// Keys for different controls do not undo one another: pressed one after the
/// other, each control has the value that its own key gave it.
pub proof fn controls_are_independent(m: Model, name: Seq<char>, a: Single, b: Single, c: Single)
    requires
        m.selected == Some(name),
        !m.detail.crop_mode,
    ensures
        ({
            let zero = Single { bits: 0 };
            let after = m.edit_key_pressed(EditAdjust::Contrast(zero), a).edit_key_pressed(
                EditAdjust::Rolloff(zero),
                b,
            ).edit_key_pressed(EditAdjust::Shadows(zero), c);
            let kept = recorded(after.roll, name);
            &&& power_held(kept.curve_contrast, a)
            &&& power_held(kept.curve_rolloff, b)
            &&& power_held(kept.curve_shadows, c)
            &&& kept.exposure_ev == recorded(m.roll, name).exposure_ev
        }),
{
    reveal(Model::edit_key_pressed);
    reveal(Model::adjusted);
    reveal(Model::curve_set);
}

/// Going back gives the open frame the edits that it was opened with, all of
/// them, on screen and in the manifest.
pub proof fn reset_restores_every_control(m: Model, name: Seq<char>)
    requires
        m.selected == Some(name),
    ensures
        only_edits_changed(m, m.all_reset(), name, m.detail.reset, m.detail.reset),
{
    reveal(Model::all_reset);
    one_entry(m, name, m.detail.reset);
}

/// Whether a place is that of the first frame of a name.
pub open spec fn first_named(tiles: Seq<TileModel>, name: Seq<char>, k: int) -> bool {
    &&& 0 <= k < tiles.len()
    &&& tiles[k].name == name
    &&& forall|j: int| 0 <= j < k ==> (#[trigger] tiles[j]).name != name
}

/// Whether a place is that of the first roll of a directory with a given cover.
pub open spec fn first_covered(rolls: Seq<RollModel>, dir: Seq<char>, name: Seq<char>, k: int) -> bool {
    &&& 0 <= k < rolls.len()
    &&& rolls[k].dir == dir
    &&& rolls[k].cover == Some(name)
    &&& forall|j: int|
        0 <= j < k ==> (#[trigger] rolls[j]).dir != dir || rolls[j].cover != Some(name)
}

/// The first frame of a name is the one that is found.
proof fn found_frame(m: Model, name: Seq<char>, k: int)
    requires
        first_named(m.tiles, name, k),
    ensures
        m.tile_at(name) == Some(k),
{
    assert forall|j: int| 0 <= j < k implies !state::named(name)(#[trigger] m.tiles[j]) by {
        assert(m.tiles[j].name != name);
    }
    seqs::first_where_from_place(m.tiles, state::named(name), k);
}

/// Whether the open frame's edits are committed: the manifest as it is is to be
/// written, and the frame's thumbnail, and the cover that it may be, are to be
/// decoded anew.
pub open spec fn commits(m: Model, after: Model, dir: Seq<char>, name: Seq<char>) -> bool {
    &&& asks(m, after, EffectModel::SaveManifest { dir, manifest: after.roll })
    &&& forall|k: int| #[trigger]
        first_named(after.tiles, name, k) ==> after.tiles[k].thumb == Thumb::Loading
    &&& forall|k: int| #[trigger]
        first_covered(after.rolls, dir, name, k) ==> after.rolls[k].thumb == Thumb::Loading
}

/// Starting decodes changes only what is being decoded and what is asked for.
pub proof fn starting_decodes_is_all(m: Model)
    ensures
        m.thumbs_pumped() == (Model {
            thumb_inflight: m.thumbs_pumped().thumb_inflight,
            effects: m.thumbs_pumped().effects,
            ..m
        }),
        m.effects.is_prefix_of(m.thumbs_pumped().effects),
        m.covers_pumped() == (Model {
            cover_inflight: m.covers_pumped().cover_inflight,
            effects: m.covers_pumped().effects,
            ..m
        }),
        m.effects.is_prefix_of(m.covers_pumped().effects),
{
    reveal(Model::thumbs_pumped);
    reveal(Model::covers_pumped);
}

/// The first frame of a name is to be decoded anew.
proof fn tile_is_reloaded(m: Model, name: Seq<char>)
    ensures
        ({
            let after = m.tile_reloading(name);
            &&& after == (Model { tiles: after.tiles, ..m })
            &&& forall|k: int| #[trigger]
        first_named(after.tiles, name, k) ==> after.tiles[k].thumb == Thumb::Loading
        }),
{
    reveal(Model::tile_reloading);
    let after = m.tile_reloading(name);
    seqs::first_where_is_first(m.tiles, state::named(name));
    assert forall|k: int| #[trigger] first_named(after.tiles, name, k) implies after.tiles[k].thumb
        == Thumb::Loading by {
        assert(first_named(m.tiles, name, k)) by {
            assert forall|j: int| 0 <= j < k implies (#[trigger] m.tiles[j]).name != name by {
                assert(after.tiles[j].name != name);
            }
        }
        found_frame(m, name, k);
    }
}

/// The first roll with a given cover is the one that is found.
proof fn cover_is_reloaded(m: Model, dir: Seq<char>, name: Seq<char>, k: int)
    requires
        first_covered(m.rolls, dir, name, k),
    ensures
        seqs::first_where(m.rolls, editing::covered_by(dir, name)) == Some(k),
{
    let test = editing::covered_by(dir, name);
    assert forall|j: int| 0 <= j < k implies !test(#[trigger] m.rolls[j]) by {
        assert(m.rolls[j].dir != dir || m.rolls[j].cover != Some(name));
    }
    seqs::first_where_from_place(m.rolls, test, k);
}

/// A commit writes the manifest and has the frame's pictures decoded anew, and
/// changes no edits.
pub proof fn commits_write_and_redraw(m: Model, dir: Seq<char>, name: Seq<char>)
    requires
        m.active == Some(dir),
        m.selected == Some(name),
    ensures
        commits(m, m.committed(), dir, name),
        m.committed().roll == m.roll,
        m.committed().detail == m.detail,
        m.committed().editing_key_held == m.editing_key_held,
        m.effects.is_prefix_of(m.committed().effects),
{
    reveal(Model::committed);
    reveal(Model::rebaked);
    let saved = m.roll_persisted();
    let e = EffectModel::SaveManifest { dir, manifest: m.roll };
    assert(saved.effects[m.effects.len() as int] == e);
    let a = saved.tile_reloading(name);
    tile_is_reloaded(saved, name);
    starting_decodes_is_all(a);
    let shown = a.thumbs_pumped();
    assert(a.effects[m.effects.len() as int] == e);
    asking_lasts(m, a, shown, e);
    assert(m.effects.is_prefix_of(saved.effects));
    beginnings_add_up(m.effects, saved.effects, shown.effects);
    let test = editing::covered_by(dir, name);
    seqs::first_where_is_first(shown.rolls, test);
    match seqs::first_where(shown.rolls, editing::covered_by(dir, name)) {
        Some(k) => {
            let c = shown.with_cover(k, Thumb::Loading);
            starting_decodes_is_all(c);
            assert(asks(m, c, e)) by {
                let i = choose|i: int|
                    m.effects.len() <= i < shown.effects.len() && #[trigger] shown.effects[i] == e;
                assert(c.effects[i] == e);
            }
            asking_lasts(m, c, c.covers_pumped(), e);
            beginnings_add_up(m.effects, c.effects, c.covers_pumped().effects);
        },
        None => {},
    }
    let after = m.committed();
    assert(after.roll == m.roll);
    assert(asks(m, after, e));
    assert(after.tiles == a.tiles);
    assert forall|k: int| #[trigger] first_covered(after.rolls, dir, name, k) implies
        after.rolls[k].thumb == Thumb::Loading by {
        assert(first_covered(shown.rolls, dir, name, k)) by {
            assert forall|j: int| 0 <= j < k implies (#[trigger] shown.rolls[j]).dir != dir
                || shown.rolls[j].cover != Some(name) by {
                assert(after.rolls[j].dir != dir || after.rolls[j].cover != Some(name));
            }
        }
        cover_is_reloaded(shown, dir, name, k);
    }
}

/// A released editing key commits once, and is then no longer held; a crop that
/// is taken off is gone and committed; crop mode commits when it ends, and only
/// then.
pub proof fn interactions_end_in_a_commit(m: Model, dir: Seq<char>, name: Seq<char>)
    requires
        m.active == Some(dir),
        m.selected == Some(name),
    ensures
        m.editing_key_held ==> commits(m, m.edit_key_released(), dir, name)
            && !m.edit_key_released().editing_key_held && m.edit_key_released().roll == m.roll,
        commits(m, m.crop_reset(), dir, name),
        m.crop_reset().detail.edit == (EditData {
            crop: CropMargins { top: 0, right: 0, bottom: 0, left: 0 },
            ..m.detail.edit
        }),
        recorded(m.crop_reset().roll, name) == (EditData {
            crop: CropMargins { top: 0, right: 0, bottom: 0, left: 0 },
            ..recorded(m.roll, name)
        }),
        m.detail.live is Some ==> m.crop_mode_toggled().detail.crop_mode == !m.detail.crop_mode,
        m.detail.live is Some && m.detail.crop_mode ==> commits(
            m,
            m.crop_mode_toggled(),
            dir,
            name,
        ),
        m.crop_mode_toggled().roll == m.roll,
        m.crop_mode_toggled().detail.edit == m.detail.edit,
{
    reveal(Model::edit_key_released);
    reveal(Model::crop_reset);
    reveal(Model::crop_set);
    reveal(Model::crop_mode_toggled);
    commits_write_and_redraw(Model { editing_key_held: false, ..m }, dir, name);
    let set = m.crop_set(CropMargins::no_crop());
    commits_write_and_redraw(set, dir, name);
    commits_from(m, set, set.committed(), dir, name);
    let switched = Model {
        detail: DetailState {
            crop_mode: if m.detail.live is Some {
                !m.detail.crop_mode
            } else {
                m.detail.crop_mode
            },
            ..m.detail
        },
        ..m
    }.emitting(EffectModel::ReclampZoom);
    commits_write_and_redraw(switched, dir, name);
    commits_from(m, switched, switched.committed(), dir, name);
}

/// A commit after more work is a commit all the same.
proof fn commits_from(m: Model, a: Model, after: Model, dir: Seq<char>, name: Seq<char>)
    requires
        commits(a, after, dir, name),
        m.effects.len() <= a.effects.len(),
    ensures
        commits(m, after, dir, name),
{
    let e = EffectModel::SaveManifest { dir, manifest: after.roll };
    let i = choose|i: int| a.effects.len() <= i < after.effects.len() && #[trigger] after.effects[i]
        == e;
    assert(after.effects[i] == e);
}

/// A copy takes the whole tone of the focused frame, or of the open one where
/// none is focused.
pub proof fn copies_take_the_focused_tone(m: Model)
    ensures
        match (m.frame_selected, m.selected) {
            (Some(n), _) => m.copied().clipboard is Some && work_laws::tone_is_of(
                m.copied().clipboard.unwrap(),
                recorded(m.roll, n),
            ),
            (None, Some(n)) => m.copied().clipboard is Some && work_laws::tone_is_of(
                m.copied().clipboard.unwrap(),
                recorded(m.roll, n),
            ),
            (None, None) => m.copied() == m,
        },
        m.copied() == (Model { clipboard: m.copied().clipboard, ..m }),
{
    reveal(Model::copied);
}

/// Whether a frame is one that a paste goes onto: a selected one; where none is
/// selected, the focused one, or else the open one.
pub open spec fn is_pasted_onto(m: Model, name: Seq<char>) -> bool {
    m.selected_frames.contains(name) || ((forall|n: Seq<char>|
        !(#[trigger] m.selected_frames.contains(n))) && (m.frame_selected == Some(name) || (
    m.frame_selected is None && m.selected == Some(name))))
}

/// A paste gives its frames the copied tone, with their crop and rotation as
/// they were, shows it where the open frame is among them, writes the manifest,
/// and has the thumbnails of these frames decoded anew.
pub proof fn pastes_tone_write_and_redraw(
    m: Model,
    dir: Seq<char>,
    tone: ToneEdit,
    name: Seq<char>,
)
    requires
        m.active == Some(dir),
        m.clipboard == Some(tone),
    ensures
        ({
            let after = m.pasted();
            let now = recorded(after.roll, name);
            let was = recorded(m.roll, name);
            &&& is_pasted_onto(m, name) ==> work_laws::tone_is_of(tone, now) && now.crop == was.crop
                && now.rotation == was.rotation
            &&& !is_pasted_onto(m, name) ==> now == was
            &&& is_pasted_onto(m, name) ==> asks(
                m,
                after,
                EffectModel::SaveManifest { dir, manifest: after.roll },
            )
            &&& is_pasted_onto(m, name) && m.selected == Some(name) ==> work_laws::tone_is_of(
                tone,
                after.detail.edit,
            ) && after.detail.edit.crop == m.detail.edit.crop && after.detail.edit.rotation
                == m.detail.edit.rotation
            &&& is_pasted_onto(m, name) ==> forall|k: int| #[trigger]
        first_named(after.tiles, name, k) ==> after.tiles[k].thumb == Thumb::Loading
        }),
{
    crate::laws::paste_goes_onto_the_selection(m, tone, name);
    let none = Set::<Seq<char>>::empty();
    if m.selected_frames != none {
        if forall|n: Seq<char>| !(#[trigger] m.selected_frames.contains(n)) {
            assert(m.selected_frames =~= none);
        }
    }
    if is_pasted_onto(m, name) {
        paste_redraws(m, dir, tone, name);
    }
}

proof fn paste_redraws(m: Model, dir: Seq<char>, tone: ToneEdit, name: Seq<char>)
    requires
        m.active == Some(dir),
        m.clipboard == Some(tone),
        editing::paste_targets(m).contains(name),
    ensures
        ({
            let after = m.pasted();
            &&& asks(m, after, EffectModel::SaveManifest { dir, manifest: after.roll })
            &&& m.selected == Some(name) ==> after.detail.edit == m.detail.edit.with_tone(tone)
            &&& forall|k: int| #[trigger]
        first_named(after.tiles, name, k) ==> after.tiles[k].thumb == Thumb::Loading
        }),
{
    reveal(Model::pasted);
    reveal(Model::tone_applied);
    reveal(Model::rebaked_all);
    reveal(Model::thumbs_pumped);
    reveal(Model::covers_pumped);
    let names = editing::paste_targets(m);
    assert(names != Set::<Seq<char>>::empty());
    let after = m.pasted();
    let saved = m.tone_applied(names, tone).roll_persisted();
    assert(after.effects[m.effects.len() as int] == EffectModel::SaveManifest {
        dir,
        manifest: saved.roll,
    });
    assert(after.roll == saved.roll);
    let tiles = editing::tiles_reloading(saved.tiles, names);
    assert(after.tiles == tiles);
    assert forall|k: int| #[trigger] first_named(after.tiles, name, k) implies after.tiles[k].thumb
        == Thumb::Loading by {
        assert(first_named(m.tiles, name, k)) by {
            assert forall|j: int| 0 <= j < k implies (#[trigger] m.tiles[j]).name != name by {
                assert(after.tiles[j].name != name);
            }
        }
        found_frame(m, name, k);
    }
}

/// Whether a place of the source, by column and row, lies in the crop window.
pub open spec fn in_window(crop: CropMargins, width: int, height: int, place: (int, int)) -> bool {
    crop.left <= place.0 < width - crop.right && crop.top <= place.1 < height - crop.bottom
}

/// The place that lies a distance behind a place of the screen, for something
/// that moves as an arrow points.
pub open spec fn behind(dir: MoveDir, far: int, x: int, y: int) -> (int, int) {
    match dir {
        MoveDir::Left => (x + far, y),
        MoveDir::Right => (x - far, y),
        MoveDir::Up => (x, y + far),
        MoveDir::Down => (x, y - far),
    }
}

/// How far the window is from the edge of the screen's picture that an arrow
/// points to, where the picture is turned by quarters against the clock.
pub open spec fn screen_margin(crop: CropMargins, quarters: int, dir: MoveDir) -> int {
    let turned = quarters % 4;
    let (left, up, right, down) = if turned == 0 {
        (crop.left, crop.top, crop.right, crop.bottom)
    } else if turned == 1 {
        (crop.top, crop.right, crop.bottom, crop.left)
    } else if turned == 2 {
        (crop.right, crop.bottom, crop.left, crop.top)
    } else {
        (crop.bottom, crop.left, crop.top, crop.right)
    };
    match dir {
        MoveDir::Left => left as int,
        MoveDir::Up => up as int,
        MoveDir::Right => right as int,
        MoveDir::Down => down as int,
    }
}

/// In crop mode an arrow key moves the window as seen on screen: a place of the
/// turned picture is in the window exactly where the place that lies the moved
/// distance behind it was. The distance is five pixels, or one with Shift, but
/// never beyond the edge. The manifest follows, and no other edit changes.
pub proof fn arrows_move_the_window_on_screen(m: Model, dir: MoveDir, name: Seq<char>)
    requires
        m.selected == Some(name),
        m.detail.crop_mode,
        m.detail.live is Some,
        crop::window_inside(
            m.detail.edit.crop,
            m.detail.live.unwrap().mono.source_width as int,
            m.detail.live.unwrap().mono.source_height as int,
        ),
    ensures
        ({
            let mono = m.detail.live.unwrap().mono;
            let (width, height) = (mono.source_width as int, mono.source_height as int);
            let turns = m.detail.edit.rotation as int;
            let was = m.detail.edit.crop;
            let after = m.navigated(dir);
            let now = after.detail.edit.crop;
            let step: int = if m.modifiers.shift {
                1
            } else {
                5
            };
            let room = screen_margin(was, turns, dir);
            let far = if step < room {
                step
            } else {
                room
            };
            &&& forall|x: int, y: int|
                in_window(
                    now,
                    width,
                    height,
                    #[trigger] raster::unturned(width, height, turns, x, y),
                ) == in_window(
                    was,
                    width,
                    height,
                    raster::unturned(
                        width,
                        height,
                        turns,
                        behind(dir, far, x, y).0,
                        behind(dir, far, x, y).1,
                    ),
                )
            &&& only_edits_changed(
                m,
                after,
                name,
                EditData { crop: now, ..m.detail.edit },
                EditData { crop: now, ..recorded(m.roll, name) },
            )
            &&& after.editing_key_held
        }),
{
    reveal(Model::navigated);
    reveal(Model::crop_moved);
    reveal(Model::crop_set);
}

/// Whether a number is below zero.
pub open spec fn below_zero(x: Single) -> bool {
    x.bits >= 0x8000_0000 && x.bits % 0x8000_0000 != 0 && x.bits % 0x8000_0000 <= 0x7f80_0000
}

/// In crop mode the exposure keys resize the window, the one down and the other
/// up, by ten pixels of its long edge, or by one with Shift; the exposure stays.
/// The manifest follows, and no other edit changes.
pub proof fn exposure_keys_resize_the_window(
    m: Model,
    name: Seq<char>,
    delta: Single,
    moved: Single,
)
    requires
        m.selected == Some(name),
        m.detail.crop_mode,
        m.detail.live is Some,
        editing::holds_window(m.detail.live.unwrap().mono),
    ensures
        ({
            let mono = m.detail.live.unwrap().mono;
            let (width, height) = (mono.source_width as int, mono.source_height as int);
            let was = m.detail.edit.crop;
            let after = m.edit_key_pressed(EditAdjust::Exposure(delta), moved);
            let now = after.detail.edit.crop;
            let w = crop::larger(crop::window_width(was, width), 1);
            let h = crop::larger(crop::window_height(was, height), 1);
            let long = crop::larger(w, h);
            let edge = crop::larger(
                crop::window_width(now, width),
                crop::window_height(now, height),
            );
            let size: int = if m.modifiers.shift {
                1
            } else {
                10
            };
            let want = if below_zero(delta) {
                long - size
            } else {
                long + size
            };
            &&& want >= 4 && want * w <= long * width && want * h <= long * height ==> edge == want
            &&& crop::window_inside(now, width, height)
            &&& only_edits_changed(
                m,
                after,
                name,
                EditData { crop: now, ..m.detail.edit },
                EditData { crop: now, ..recorded(m.roll, name) },
            )
            &&& after.editing_key_held
        }),
{
    reveal(Model::edit_key_pressed);
    reveal(Model::crop_resized);
    reveal(Model::crop_set);
    let mono = m.detail.live.unwrap().mono;
    let was = m.detail.edit.crop;
    let size: int = if m.modifiers.shift {
        1
    } else {
        10
    };
    assert(below_zero(delta) == delta.lt(Single { bits: 0 }));
    crop::long_edge_changes_by_delta(
        was,
        if below_zero(delta) {
            -size
        } else {
            size
        },
        mono.source_width,
        mono.source_height,
    );
    crop::resize_stays_inside_and_in_proportion(
        was,
        if below_zero(delta) {
            -size
        } else {
            size
        },
        mono.source_width,
        mono.source_height,
    );
}

/// Whatever changes the shape of the picture on screen has the zoom held anew:
/// the crop, the rotation, going back, and crop mode.
pub proof fn new_shapes_have_the_zoom_held(
    m: Model,
    name: Seq<char>,
    crop: CropMargins,
    rotation: u8,
)
    requires
        m.selected == Some(name),
    ensures
        m.crop_set(crop).effects == m.effects.push(EffectModel::ReclampZoom),
        m.rotation_set(rotation).effects == m.effects.push(EffectModel::ReclampZoom),
        m.all_reset().effects == m.effects.push(EffectModel::ReclampZoom),
        !m.detail.crop_mode && m.detail.live is Some ==> m.crop_mode_toggled().effects
            == m.effects.push(EffectModel::ReclampZoom),
        only_edits_changed(
            m,
            m.crop_set(crop),
            name,
            EditData { crop, ..m.detail.edit },
            EditData { crop, ..recorded(m.roll, name) },
        ),
        only_edits_changed(
            m,
            m.rotation_set(rotation),
            name,
            EditData { rotation, ..m.detail.edit },
            EditData { rotation, ..recorded(m.roll, name) },
        ),
{
    reveal(Model::crop_set);
    reveal(Model::rotation_set);
    reveal(Model::all_reset);
    reveal(Model::crop_mode_toggled);
    one_entry(m, name, EditData { crop, ..recorded(m.roll, name) });
    one_entry(m, name, EditData { rotation, ..recorded(m.roll, name) });
}

/// Without a picture on screen the crop window neither moves nor changes its
/// size.
pub proof fn windows_need_a_picture(m: Model, dir: MoveDir, adjust: EditAdjust, moved: Single)
    requires
        m.detail.crop_mode,
        m.detail.live is None,
    ensures
        m.navigated(dir).detail == m.detail,
        m.navigated(dir).roll == m.roll,
        m.navigated(dir).effects == m.effects,
        m.edit_key_pressed(adjust, moved).detail == m.detail,
        m.edit_key_pressed(adjust, moved).roll == m.roll,
        m.edit_key_pressed(adjust, moved).effects == m.effects,
{
    reveal(Model::navigated);
    reveal(Model::crop_moved);
    reveal(Model::edit_key_pressed);
    reveal(Model::crop_resized);
}

} // verus!
