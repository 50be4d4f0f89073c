//! What the detail view makes of decodes, the wheel and the cursor.

use vstd::prelude::*;
use crate::edit_manifest::ManifestModel;
use crate::editing_laws::first_named;
use crate::effect::EffectModel;
use crate::film::FilmPreset;
use crate::frame_laws::found_tile;
use crate::lru;
use crate::message::{DetailMono, Point};
use crate::seqs;
use crate::single::Single;
use crate::state;
use crate::state::{DetailState, Model};

verus! {

/// The number one, as a single-precision number.
pub open spec fn one() -> Single {
    Single { bits: 0x3f80_0000 }
}

/// Whether a zoom has reached the one from which a picture is worth decoding at
/// full size: two, or that which shows it pixel by pixel, if it comes earlier.
pub open spec fn worth_full_size(zoom: Single, one_to_one: Single) -> bool {
    let two = Single { bits: 0x4000_0000 };
    if one_to_one.lt(two) {
        zoom.ge(one_to_one)
    } else {
        zoom.ge(two)
    }
}

/// The first decode of the open frame is shown: with its own picture, under its
/// thumbnail at full opacity, its zoom held to the cap; and it is kept in the
/// cache under the roll, the film and the frame. The slot is free again, and the
/// edits stay.
pub proof fn first_decodes_are_shown_and_kept(
    m: Model,
    dir: Seq<char>,
    name: Seq<char>,
    preset: FilmPreset,
    mono: DetailMono,
    cap: Single,
)
    requires
        m.active == Some(dir),
        m.detail.live is None,
        lru::distinct_keys(m.detail_cache),
    ensures
        ({
            let after = m.result_taken(name, preset, Ok(mono), cap);
            let key = (dir, preset, name);
            &&& after.detail.live is Some && after.detail.live.unwrap().mono == mono
            &&& after.detail_inflight is None
            &&& lru::holds(after.detail_cache, key)
            &&& after.detail_cache[lru::position(after.detail_cache, key)].1 == mono
            &&& after.detail.thumb_opacity == one()
            &&& after.detail.zoom == (if cap.lt(m.detail.zoom) {
                cap
            } else {
                m.detail.zoom
            })
            &&& after.detail.edit == m.detail.edit
            &&& after.detail.native_queued == (m.detail.native_queued || mono.src_long_edge <= 2048)
            &&& forall|k: int| #[trigger]
                first_named(m.tiles, name, k) && m.tiles[k].thumb is Ready ==> after.detail.thumb
                    == Some(m.tiles[k].thumb->Ready_0)
            &&& after.effects == m.effects && after.roll == m.roll && after.tiles == m.tiles
                && after.selected == m.selected && after.active == m.active
        }),
{
    reveal(Model::result_taken);
    reveal(Model::landed);
    reveal(Model::stored);
    reveal(Model::installed);
    reveal(Model::zoom_held);
    lru::inserted_value_is_found(
        m.detail_cache,
        state::DETAIL_CACHE_CAPACITY as int,
        (dir, preset, name),
        mono,
    );
    assert forall|k: int| #[trigger]
        first_named(m.tiles, name, k) && m.tiles[k].thumb is Ready implies m.result_taken(
        name,
        preset,
        Ok(mono),
        cap,
    ).detail.thumb == Some(m.tiles[k].thumb->Ready_0) by {
        found_tile(m, name, k);
    }
}

/// A decode that replaces a picture is the one at full size: it is shown, not
/// kept in the cache, and no other follows it.
pub proof fn full_size_decodes_replace_the_picture(
    m: Model,
    name: Seq<char>,
    preset: FilmPreset,
    mono: DetailMono,
    cap: Single,
)
    requires
        m.detail.live is Some,
    ensures
        ({
            let after = m.result_taken(name, preset, Ok(mono), cap);
            &&& after.detail.live is Some && after.detail.live.unwrap().mono == mono
            &&& after.detail.native_queued
            &&& after.detail_cache == m.detail_cache
            &&& after.detail_inflight is None
            &&& after.detail.edit == m.detail.edit
            &&& after.detail.thumb == m.detail.thumb
            &&& after.detail.zoom == (if cap.lt(m.detail.zoom) {
                cap
            } else {
                m.detail.zoom
            })
            &&& after.effects == m.effects && after.roll == m.roll
        }),
{
    reveal(Model::result_taken);
    reveal(Model::landed);
    reveal(Model::stored);
    reveal(Model::installed);
    reveal(Model::zoom_held);
}

/// A decode that is for the frame on screen is taken. Where it gave a picture
/// that the zoom has outgrown meanwhile, the one at full size is asked for. A
/// failed one is reported, once, and shows nothing.
pub proof fn current_decodes_are_taken(
    m: Model,
    dir: Seq<char>,
    name: Seq<char>,
    preset: FilmPreset,
    result: Result<DetailMono, String>,
    cap: Single,
    one_to_one: Single,
)
    requires
        m.active == Some(dir),
        m.selected == Some(name),
        m.detail_inflight == Some(name),
    ensures
        ({
            let after = m.detail_finished(name, preset, result, cap, one_to_one);
            let taken = m.result_taken(name, preset, result, cap);
            &&& result is Ok ==> {
                let more = !taken.detail.native_queued && worth_full_size(
                    taken.detail.zoom,
                    one_to_one,
                );
                &&& after.detail.live == taken.detail.live
                &&& after.detail_cache == taken.detail_cache
                &&& !more ==> after == taken
                &&& more ==> after.detail_inflight == Some(name) && after.effects.len()
                    == taken.effects.len() + 1 && after.effects.last() is DecodeDetail
                    && after.effects.last()->DecodeDetail_name == name
                    && after.effects.last()->DecodeDetail_cap == 8192
            }
            &&& result is Err ==> {
                &&& after.detail.live == m.detail.live
                &&& after.detail_inflight is None
                &&& after.detail_cache == m.detail_cache
                &&& m.detail_logged_failure != Some(name) ==> after.effects == m.effects.push(
                    EffectModel::ReportDetailFailure { name, reason: result->Err_0@ },
                )
                &&& m.detail_logged_failure == Some(name) ==> after.effects == m.effects
            }
        }),
{
    reveal(Model::detail_finished);
    reveal(Model::result_taken);
    reveal(Model::failure_reported);
    reveal(Model::landed);
    reveal(Model::stored);
    reveal(Model::installed);
    reveal(Model::zoom_held);
    reveal(Model::detail_pumped);
    reveal(Model::detail_requested);
}

/// A decode that is no longer for the frame on screen frees the slot, and what
/// the view needs now is decoded instead; nothing of it is shown or kept.
pub proof fn other_decodes_make_way(
    m: Model,
    name: Seq<char>,
    preset: FilmPreset,
    result: Result<DetailMono, String>,
    cap: Single,
    one_to_one: Single,
)
    requires
        m.selected != Some(name) || m.detail_inflight != Some(name),
    ensures
        m.detail_finished(name, preset, result, cap, one_to_one) == (Model {
            detail_inflight: None,
            ..m
        }).detail_pumped(),
{
    reveal(Model::detail_finished);
}

/// With a picture on screen that is not at full size, the next decode for the
/// view is the one at full size.
pub proof fn the_next_level_is_full_size(m: Model, dir: Seq<char>, name: Seq<char>)
    requires
        m.active == Some(dir),
        m.selected == Some(name),
        m.detail.live is Some,
        m.detail_inflight is None,
    ensures
        m.detail.native_queued ==> m.detail_pumped() == m,
        !m.detail.native_queued ==> {
            let after = m.detail_pumped();
            &&& after.detail_inflight == Some(name)
            &&& after.effects.len() == m.effects.len() + 1
            &&& after.effects.last() is DecodeDetail
            &&& after.effects.last()->DecodeDetail_dir == dir
            &&& after.effects.last()->DecodeDetail_name == name
            &&& after.effects.last()->DecodeDetail_cap == 8192
        },
{
    reveal(Model::detail_pumped);
    reveal(Model::detail_requested);
}

/// The wheel sets zoom and pan. Where the zoom has reached that of full size,
/// nothing is being decoded, and full size was not asked for, the next decode
/// for the view starts.
pub proof fn the_wheel_zooms(m: Model, zoom: Single, pan: Point, one_to_one: Single)
    ensures
        ({
            let after = m.zoomed(zoom, pan, one_to_one);
            let moved = Model { detail: DetailState { zoom, pan, ..m.detail }, ..m };
            let due = m.detail_inflight is None && worth_full_size(zoom, one_to_one)
                && !m.detail.native_queued;
            &&& after.detail.zoom == zoom
            &&& after.detail.pan == pan
            &&& after.detail.edit == m.detail.edit
            &&& after.roll == m.roll
            &&& due ==> after == moved.detail_pumped()
            &&& !due ==> after == moved
        }),
{
    reveal(Model::zoomed);
    reveal(Model::detail_pumped);
    reveal(Model::detail_requested);
    reveal(Model::installed);
}

/// The cursor's place is kept; while the picture is grabbed it follows, and
/// else it stays.
pub proof fn the_picture_follows_the_grab(m: Model, cursor: Point, pan: Point)
    ensures
        m.cursor_moved(cursor, pan).detail.cursor == Some(cursor),
        m.detail.panning && m.detail.cursor is Some ==> m.cursor_moved(cursor, pan).detail.pan
            == pan,
        !m.detail.panning || m.detail.cursor is None ==> m.cursor_moved(cursor, pan).detail.pan
            == m.detail.pan,
        m.cursor_moved(cursor, pan) == (Model {
            detail: DetailState {
                cursor: Some(cursor),
                pan: m.cursor_moved(cursor, pan).detail.pan,
                ..m.detail
            },
            ..m
        }),
{
    reveal(Model::cursor_moved);
}

/// The crossfade gives the thumbnail the opacity, and drops it once it cannot
/// be seen.
pub proof fn the_thumbnail_fades(m: Model, opacity: Single)
    ensures
        m.faded(opacity).detail.thumb_opacity == opacity,
        m.faded(opacity).detail.fading,
        (Single { bits: 0 }).lt(opacity) ==> m.faded(opacity).detail.thumb == m.detail.thumb,
        (Single { bits: 0 }).ge(opacity) ==> m.faded(opacity).detail.thumb is None,
        m.faded(opacity).detail.live == m.detail.live,
        m.faded(opacity).detail.edit == m.detail.edit,
        m.faded(opacity).effects == m.effects,
{
    reveal(Model::faded);
}

/// A picture that comes on screen has a number of its own, other than that of
/// the last, so that it is told from it.
pub proof fn pictures_are_told_apart(m: Model, mono: DetailMono)
    ensures
        ({
            let after = m.installed(mono);
            &&& after.detail.live is Some
            &&& after.detail.live.unwrap().mono == mono
            &&& after.detail.live.unwrap().image_id == m.next_image_id
            &&& after.next_image_id != m.next_image_id
            &&& after.detail.native_queued == (m.detail.native_queued || mono.src_long_edge <= 2048)
            &&& after.detail.edit == m.detail.edit && after.effects == m.effects
        }),
{
    reveal(Model::installed);
}

/// A zoom that is above a new cap is held to it; any other stays.
pub proof fn zooms_are_held(m: Model, cap: Single)
    ensures
        cap.lt(m.detail.zoom) ==> m.zoom_held(cap) == (Model {
            detail: DetailState { zoom: cap, ..m.detail },
            ..m
        }),
        !cap.lt(m.detail.zoom) ==> m.zoom_held(cap) == m,
{
    reveal(Model::zoom_held);
}

/// A preload that gave a picture is kept in the cache for its roll, film and
/// frame; any preload that is over is no longer under way, and the others are.
pub proof fn preloads_are_kept(
    m: Model,
    dir: Seq<char>,
    name: Seq<char>,
    preset: FilmPreset,
    result: Result<DetailMono, String>,
)
    requires
        lru::distinct_keys(m.detail_cache),
    ensures
        ({
            let after = m.preload_finished(dir, name, preset, result);
            let key = (dir, preset, name);
            &&& result is Ok ==> lru::holds(after.detail_cache, key)
                && after.detail_cache[lru::position(after.detail_cache, key)].1 == result->Ok_0
            &&& result is Err ==> after.detail_cache == m.detail_cache
            &&& !after.detail_preload_inflight.contains((dir, name))
            &&& forall|p: (Seq<char>, Seq<char>)|
                p != (dir, name) ==> #[trigger] after.detail_preload_inflight.contains(p)
                    == m.detail_preload_inflight.contains(p)
        }),
{
    reveal(Model::preload_finished);
    reveal(Model::stored);
    let gone = (dir, name);
    let test = seqs::other_than(gone);
    let after = m.preload_finished(dir, name, preset, result);
    let all = m.detail_preload_inflight;
    assert(after.detail_preload_inflight == all.filter(test));
    if all.filter(test).contains(gone) {
        let i = choose|i: int| 0 <= i < all.filter(test).len() && all.filter(test)[i] == gone;
        all.lemma_filter_pred(test, i);
    }
    assert forall|p: (Seq<char>, Seq<char>)|
        p != gone implies #[trigger] after.detail_preload_inflight.contains(p) == all.contains(p) by {
        if all.contains(p) {
            let i = choose|i: int| 0 <= i < all.len() && all[i] == p;
            assert(test(all[i]));
            all.lemma_filter_contains(test, i);
        }
        if all.filter(test).contains(p) {
            all.lemma_filter_contains_rev(test, p);
        }
    }
    if result is Ok {
        lru::inserted_value_is_found(
            m.detail_cache,
            state::DETAIL_CACHE_CAPACITY as int,
            (dir, preset, name),
            result->Ok_0,
        );
    }
}

/// Backing out: a search in the library is put away; an open frame is closed,
/// with its edits written; a bare grid is left, with the roll written and
/// nothing of it left behind.
pub proof fn backing_out(m: Model)
    ensures
        ({
            let after = m.escaped();
            let saved = match m.active {
                Some(dir) => m.effects.push(EffectModel::SaveManifest { dir, manifest: m.roll }),
                None => m.effects,
            };
            &&& saved.is_prefix_of(after.effects)
            &&& m.active is None && m.search is Some ==> after.search is None && after.search_filter
                is None && after.effects == m.effects && after.active is None
            &&& m.active is None && m.search is None ==> after == m
            &&& m.active is Some && m.selected is Some ==> {
                &&& after.active == m.active
                &&& after.selected is None
                &&& after.detail.live is None
                &&& !after.detail.crop_mode
                &&& !after.editing_key_held
                &&& after.frame_selected == m.frame_selected
                &&& after.selected_frames == m.selected_frames
                &&& after.tiles == m.tiles
                &&& after.roll == m.roll
                &&& after.drawer.page == crate::drawer::ContextPage::FrameInfo
                &&& after.drawer.show == (m.drawer.memory.grid && m.frame_selected is Some)
            }
            &&& m.active is Some && m.selected is None ==> {
                &&& after.active is None
                &&& after.tiles.len() == 0
                &&& after.frame_selected is None
                &&& after.selected_frames == Set::<Seq<char>>::empty()
                &&& after.thumb_inflight.len() == 0
                &&& after.detail_inflight is None
                &&& after.roll == ManifestModel::blank()
                &&& after.drawer.page == crate::drawer::ContextPage::RollInfo
                &&& after.drawer.show == (m.drawer.memory.library && m.roll_selected())
                &&& after.effects == saved
            }
            &&& after.rolls == m.rolls && after.config == m.config && after.library_selection
                == m.library_selection && after.clipboard == m.clipboard
        }),
{
    reveal(Model::escaped);
    reveal(Model::search_closed);
    reveal(Model::roll_closed);
}

} // verus!
