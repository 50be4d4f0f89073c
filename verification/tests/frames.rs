//! Frames: selection, crop windows, the overview cache and the editing keys.

use curvectrl::calibration::is_calibration_frame;
use curvectrl::crop::{crop_move_direction, move_crop_box, resize_crop_box, MIN_CROP_WINDOW};
use curvectrl::detail::{detail_result_is_current, native_level_up_zoom_for};
use curvectrl::edit_manifest::{CropDirection as Dir, CropMargins as Marg};
use curvectrl::film::{BaseMode, FilmPreset};
use curvectrl::frames::apply_frame_click;
use curvectrl::keys::edit_adjust_for;
use curvectrl::library::{MoveDir, Thumb};
use curvectrl::lru::{DetailKey, LruCache};
use curvectrl::message::EditAdjust;
use curvectrl::names::NameSet;
use curvectrl::single::Single;
use curvectrl::state::Tile;

const EDIT_STEP_EV: f32 = 0.5;
const EDIT_NUDGE_EV: f32 = 0.05;
const EDIT_STEP_CURVE: f32 = 0.2;
const EDIT_NUDGE_CURVE: f32 = 0.05;

fn single(value: f32) -> Single {
    Single { bits: value.to_bits() }
}

fn tile(name: &str) -> Tile {
    Tile { name: name.to_owned(), thumb: Thumb::Loading, meta: None, meta_failed: false }
}

#[test]
fn is_calibration_frame_gates_on_the_base_mode_and_designated_name() {
    // The dot only appears for the designated frame under the
    // AutoSelectedFrame base mode.
    let frame = "IMG_0007.DNG";
    assert!(is_calibration_frame(
        BaseMode::AutoSelectedFrame,
        Some(frame),
        frame
    ));
    // Same base mode, wrong frame → no dot.
    assert!(!is_calibration_frame(
        BaseMode::AutoSelectedFrame,
        Some(frame),
        "IMG_0008.DNG"
    ));
    // No designated frame yet → no dot.
    assert!(!is_calibration_frame(
        BaseMode::AutoSelectedFrame,
        None,
        frame
    ));
    // Every other base mode ignores the designated frame.
    for mode in [BaseMode::Preset, BaseMode::AutoPerFrame] {
        assert!(!is_calibration_frame(mode, Some(frame), frame));
    }
}

#[test]
fn detail_result_applies_to_its_own_selection() {
    assert!(detail_result_is_current(Some("a"), Some("a"), "a"));
}

#[test]
fn detail_result_rejected_for_replaced_selection() {
    // "a" finished, but the user already moved on to "b".
    assert!(!detail_result_is_current(Some("b"), Some("a"), "a"));
}

#[test]
fn detail_result_rejected_after_close() {
    assert!(!detail_result_is_current(None, Some("a"), "a"));
}

#[test]
fn detail_result_rejected_without_inflight_request() {
    assert!(!detail_result_is_current(Some("a"), None, "a"));
}

#[test]
fn lru_cache_get_marks_most_recently_used() {
    let mut cache = LruCache::new(2);
    assert!(cache.insert("a".to_owned(), 1).is_none());
    assert!(cache.insert("b".to_owned(), 2).is_none());
    // Touching "a" makes it most-recently used, so "b" is evicted next.
    assert_eq!(cache.get(&"a".to_owned()), Some(&1));
    assert_eq!(cache.insert("c".to_owned(), 3), Some(2));
    assert!(cache.contains(&"a".to_owned()));
    assert!(!cache.contains(&"b".to_owned()));
    assert!(cache.contains(&"c".to_owned()));
}

#[test]
fn lru_cache_evicts_least_recently_used_at_capacity() {
    let mut cache = LruCache::new(3);
    assert!(cache.insert("a".to_owned(), 1).is_none());
    assert!(cache.insert("b".to_owned(), 2).is_none());
    assert!(cache.insert("c".to_owned(), 3).is_none());
    assert_eq!(cache.len(), 3);
    // Full: inserting "d" evicts the least-recently-used "a".
    assert_eq!(cache.insert("d".to_owned(), 4), Some(1));
    assert_eq!(cache.len(), 3);
    assert!(!cache.contains(&"a".to_owned()));
    for key in ["b", "c", "d"] {
        assert!(cache.contains(&key.to_owned()));
    }
}

#[test]
fn lru_cache_insert_same_key_updates_in_place() {
    let mut cache = LruCache::new(2);
    assert!(cache.insert("a".to_owned(), 1).is_none());
    // Re-inserting an existing key updates the value and never evicts.
    assert!(cache.insert("a".to_owned(), 10).is_none());
    assert_eq!(cache.get(&"a".to_owned()), Some(&10));
    assert_eq!(cache.len(), 1);
}

#[test]
fn lru_cache_clear_drops_everything_and_reuse() {
    let mut cache = LruCache::new(2);
    assert!(cache.insert("a".to_owned(), 1).is_none());
    assert!(cache.insert("b".to_owned(), 2).is_none());
    cache.clear();
    assert_eq!(cache.len(), 0);
    assert!(!cache.contains(&"a".to_owned()));
    // The cache is usable again after clearing.
    assert!(cache.insert("c".to_owned(), 3).is_none());
    assert_eq!(cache.len(), 1);
}

#[test]
fn lru_cache_zero_capacity_insert_evicts_every_new_entry() {
    let mut cache = LruCache::new(0);
    assert_eq!(cache.insert("a".to_owned(), 1), Some(1));
    assert_eq!(cache.len(), 0);
}

#[test]
fn lru_cache_preset_keyed_entries_do_not_collide() {
    // Two presets for the same roll+frame are distinct cache entries, so a
    // preset change can never serve a stale inversion.
    let mut cache = LruCache::new(8);
    let key_alpha = || DetailKey::new("/rolls/a", FilmPreset::Hp5Plus, "frame.DNG");
    let key_neutral = || DetailKey::new("/rolls/a", FilmPreset::Positive, "frame.DNG");
    assert!(cache.insert(key_alpha(), 1).is_none());
    assert!(cache.insert(key_neutral(), 2).is_none());
    assert_eq!(cache.get(&key_alpha()), Some(&1));
    assert_eq!(cache.get(&key_neutral()), Some(&2));
    assert_eq!(cache.len(), 2);
}

#[test]
fn lru_cache_retain_drops_only_matching_dir_and_preserves_recency() {
    let mut cache = LruCache::new(8);
    let key_a_none = || DetailKey::new("/rolls/a", FilmPreset::Positive, "1.DNG");
    let key_a_hp5 = || DetailKey::new("/rolls/a", FilmPreset::Hp5Plus, "2.DNG");
    let key_b = || DetailKey::new("/rolls/b", FilmPreset::Positive, "3.DNG");
    cache.insert(key_a_none(), 1);
    cache.insert(key_a_hp5(), 2);
    cache.insert(key_b(), 3);
    // Touch the other roll so its recency stays intact through the retain.
    assert_eq!(cache.get(&key_b()), Some(&3));

    // Dropping every entry for roll `a` (any preset) leaves roll `b` alone.
    let dropped = cache.retain(|key: &DetailKey| key.dir != "/rolls/a");
    assert_eq!(dropped.len(), 2);

    assert!(!cache.contains(&key_a_none()));
    assert!(!cache.contains(&key_a_hp5()));
    assert!(cache.contains(&key_b()));
    assert_eq!(cache.get(&key_b()), Some(&3));
    assert_eq!(cache.len(), 1);
}

#[test]
fn edit_adjust_maps_bare_and_shifted_keys() {
    // Exposure pair: `-`/`=` coarse, Shift nudge.
    assert_eq!(
        edit_adjust_for("-", false, false),
        Some(EditAdjust::Exposure(single(-EDIT_STEP_EV)))
    );
    assert_eq!(
        edit_adjust_for("=", false, false),
        Some(EditAdjust::Exposure(single(EDIT_STEP_EV)))
    );
    assert_eq!(
        edit_adjust_for("-", false, true),
        Some(EditAdjust::Exposure(single(-EDIT_NUDGE_EV)))
    );
    assert_eq!(
        edit_adjust_for("=", false, true),
        Some(EditAdjust::Exposure(single(EDIT_NUDGE_EV)))
    );
    // Contrast pair: `[`/`]` coarse, Shift nudge.
    assert_eq!(
        edit_adjust_for("[", false, false),
        Some(EditAdjust::Contrast(single(-EDIT_STEP_CURVE)))
    );
    assert_eq!(
        edit_adjust_for("]", false, false),
        Some(EditAdjust::Contrast(single(EDIT_STEP_CURVE)))
    );
    assert_eq!(
        edit_adjust_for("[", false, true),
        Some(EditAdjust::Contrast(single(-EDIT_NUDGE_CURVE)))
    );
    assert_eq!(
        edit_adjust_for("]", false, true),
        Some(EditAdjust::Contrast(single(EDIT_NUDGE_CURVE)))
    );
    // Rolloff pair: `;`/`'` coarse, Shift nudge.
    assert_eq!(
        edit_adjust_for(";", false, false),
        Some(EditAdjust::Rolloff(single(-EDIT_STEP_CURVE)))
    );
    assert_eq!(
        edit_adjust_for("'", false, false),
        Some(EditAdjust::Rolloff(single(EDIT_STEP_CURVE)))
    );
    assert_eq!(
        edit_adjust_for(";", false, true),
        Some(EditAdjust::Rolloff(single(-EDIT_NUDGE_CURVE)))
    );
    assert_eq!(
        edit_adjust_for("'", false, true),
        Some(EditAdjust::Rolloff(single(EDIT_NUDGE_CURVE)))
    );
    // Shadows pair: `,`/`.` coarse, Shift nudge.
    assert_eq!(
        edit_adjust_for(",", false, false),
        Some(EditAdjust::Shadows(single(-EDIT_STEP_CURVE)))
    );
    assert_eq!(
        edit_adjust_for(".", false, false),
        Some(EditAdjust::Shadows(single(EDIT_STEP_CURVE)))
    );
    assert_eq!(
        edit_adjust_for(",", false, true),
        Some(EditAdjust::Shadows(single(-EDIT_NUDGE_CURVE)))
    );
    assert_eq!(
        edit_adjust_for(".", false, true),
        Some(EditAdjust::Shadows(single(EDIT_NUDGE_CURVE)))
    );
    // The VIM movement keys are NOT edit adjusts — `h`/`j`/`k`/`l` route to
    // `Message::Nav` in the subscription (mirroring the arrows), so they map
    // to `None` here.
    assert_eq!(edit_adjust_for("h", false, false), None);
    assert_eq!(edit_adjust_for("j", false, false), None);
    assert_eq!(edit_adjust_for("k", false, false), None);
    assert_eq!(edit_adjust_for("l", false, false), None);
    // Shift/Alt leave them unbound too.
    assert_eq!(edit_adjust_for("h", true, true), None);
}

#[test]
fn edit_adjust_ignores_unbound_keys() {
    assert_eq!(edit_adjust_for("a", false, false), None);
    assert_eq!(edit_adjust_for(" ", false, false), None);
    assert_eq!(edit_adjust_for("p", false, true), None);
    assert_eq!(edit_adjust_for("_", false, true), None);
}

#[test]
fn plain_click_selects_a_single_frame() {
    let tiles = vec![tile("a"), tile("b"), tile("c")];
    let (set, anchor) = apply_frame_click(NameSet::new(), "b", false, false, None, &tiles);
    let v = set.to_list();
    assert_eq!(v, vec!["b".to_string()]);
    assert_eq!(anchor.as_deref(), Some("b"));
}

#[test]
fn ctrl_click_toggles_membership() {
    let tiles = vec![tile("a"), tile("b"), tile("c")];
    let mut start = NameSet::single("a");
    start.insert("b");
    // Toggle "b" off.
    let (set, anchor) = apply_frame_click(start.copy(), "b", true, false, Some("a"), &tiles);
    assert_eq!(set.to_list().len(), 1);
    assert!(set.contains("a"));
    assert!(!set.contains("b"));
    assert_eq!(anchor.as_deref(), Some("a"));
    // Toggle "c" on.
    let (set, _) = apply_frame_click(start, "c", true, false, Some("a"), &tiles);
    assert_eq!(set.to_list().len(), 3);
}

#[test]
fn shift_click_selects_range_anchor_to_clicked() {
    let tiles = vec![tile("a"), tile("b"), tile("c"), tile("d")];
    // Anchor "a", click "c" → selects a..=c.
    let (set, anchor) = apply_frame_click(NameSet::new(), "c", false, true, Some("a"), &tiles);
    let v = set.to_list();
    assert_eq!(v, vec!["a".to_string(), "b".to_string(), "c".to_string()]);
    assert_eq!(anchor.as_deref(), Some("c"));
    // Reverse range: anchor "d", click "b" → selects b..=d.
    let (set, _) = apply_frame_click(NameSet::new(), "b", false, true, Some("d"), &tiles);
    assert_eq!(set.to_list().len(), 3);
    assert!(set.contains("b") && set.contains("c") && set.contains("d"));
}

#[test]
fn shift_click_without_anchor_collapses_to_single() {
    let tiles = vec![tile("a"), tile("b"), tile("c")];
    let (set, _) = apply_frame_click(NameSet::new(), "b", false, true, None, &tiles);
    assert_eq!(set.to_list().len(), 1);
    assert!(set.contains("b"));
}


fn assert_aspects(m: Marg, w: u32, h: u32) {
    // (w − left − right) / (h − top − bottom) must equal w / h, non-degenerate.
    let cw = m.cropped_width(w);
    let ch = m.cropped_height(h);
    assert!(
        cw > 0 && ch > 0,
        "crop collapses to a degenerate frame: {m:?}"
    );
    let left = f64::from(m.left);
    let right = f64::from(m.right);
    let top = f64::from(m.top);
    let bottom = f64::from(m.bottom);
    let lhs = f64::from(w) - left - right;
    let rhs = f64::from(h) - top - bottom;
    let lhs_ratio = lhs / rhs;
    let src_ratio = f64::from(w) / f64::from(h);
    // Margins are integer pixels; the perpendicular pair rounds the exact
    // `ar·(parallel sum)` to the nearest pixel, so a sub-percent drift is
    // inherent and acceptable for frames that keep any real size. A genuine
    // aspect violation (or a collapse) moves the ratio far more than this.
    assert!(
        (lhs_ratio - src_ratio).abs() < 0.01,
        "aspect drifted: {lhs_ratio} != {src_ratio} for {m:?}"
    );
}

#[test]
fn move_crop_translates_the_window_and_keeps_size() {
    // A 200×100 crop window in a 400×300 frame, sitting at (40, 30).
    let crop = Marg {
        top: 30,
        right: 160,
        bottom: 170,
        left: 40,
    };
    // Move right by 10: left grows, right shrinks, size unchanged.
    let right = move_crop_box(crop, Dir::Right, 10, 400, 300);
    assert_eq!(right.left, 50);
    assert_eq!(right.right, 150);
    assert_eq!(right.cropped_width(400), 200);
    assert_eq!(right.cropped_height(300), 100);
    // Move left back by 10 restores the original margins exactly.
    assert_eq!(move_crop_box(right, Dir::Left, 10, 400, 300), crop);
    // Move up: top shrinks, bottom grows; size unchanged.
    let up = move_crop_box(crop, Dir::Top, 10, 400, 300);
    assert_eq!(up.top, 20);
    assert_eq!(up.bottom, 180);
    assert_eq!(up.cropped_width(400), 200);
    assert_eq!(up.cropped_height(300), 100);
    // Move down returns to the original.
    assert_eq!(move_crop_box(up, Dir::Bottom, 10, 400, 300), crop);
}

#[test]
fn move_crop_clamps_the_window_inside_the_frame() {
    // Window flush to the left edge: moving further left clamps at 0.
    let crop = Marg {
        top: 30,
        right: 160,
        bottom: 170,
        left: 0,
    };
    assert_eq!(move_crop_box(crop, Dir::Left, 50, 400, 300).left, 0);
    // Full-frame window cannot move at all (max_origin is 0).
    let full = Marg::default();
    assert_eq!(move_crop_box(full, Dir::Right, 10, 400, 300), full);
    assert_eq!(move_crop_box(full, Dir::Bottom, 10, 400, 300), full);
    // Moving far right pins the window against the right edge: the 240-wide
    // window's left origin clamps to 160 (right becomes 0).
    let far = move_crop_box(crop, Dir::Right, 10_000, 400, 300);
    assert_eq!(far.left, 160);
    assert_eq!(far.right, 0);
}

#[test]
fn crop_move_direction_rotates_with_the_display() {
    // Rotation 0 is the identity: screen == EXIF-upright directions.
    assert_eq!(crop_move_direction(MoveDir::Left, 0), Dir::Left);
    assert_eq!(crop_move_direction(MoveDir::Right, 0), Dir::Right);
    assert_eq!(crop_move_direction(MoveDir::Up, 0), Dir::Top);
    assert_eq!(crop_move_direction(MoveDir::Down, 0), Dir::Bottom);
    // One CCW turn puts the texture's top on the display's left, so a
    // visual Left moves the crop toward the texture top, etc.
    assert_eq!(crop_move_direction(MoveDir::Left, 1), Dir::Top);
    assert_eq!(crop_move_direction(MoveDir::Right, 1), Dir::Bottom);
    assert_eq!(crop_move_direction(MoveDir::Up, 1), Dir::Right);
    assert_eq!(crop_move_direction(MoveDir::Down, 1), Dir::Left);
    // 180° flips both axes.
    assert_eq!(crop_move_direction(MoveDir::Left, 2), Dir::Right);
    assert_eq!(crop_move_direction(MoveDir::Right, 2), Dir::Left);
    assert_eq!(crop_move_direction(MoveDir::Up, 2), Dir::Bottom);
    assert_eq!(crop_move_direction(MoveDir::Down, 2), Dir::Top);
    // Three CCW turns (one CW): the texture bottom lands on the display
    // left.
    assert_eq!(crop_move_direction(MoveDir::Left, 3), Dir::Bottom);
    assert_eq!(crop_move_direction(MoveDir::Right, 3), Dir::Top);
    assert_eq!(crop_move_direction(MoveDir::Up, 3), Dir::Left);
    assert_eq!(crop_move_direction(MoveDir::Down, 3), Dir::Right);
    // Rotation is mod 4: 4 == 0 (identity again).
    assert_eq!(crop_move_direction(MoveDir::Left, 4), Dir::Left);
}

#[test]
fn resize_crop_grows_and_shrinks_about_center_preserving_aspect() {
    // A source-aspect crop window in a 400×300 frame: 200×150 (aspect 4:3),
    // centered with left=right=100 and top=bottom=75.
    let crop = Marg {
        top: 75,
        right: 100,
        bottom: 75,
        left: 100,
    };
    // Grow by 10 (long edge 200 → 210, both axes scaled by 1.05).
    let grown = resize_crop_box(crop, 10, 400, 300);
    assert_eq!(grown.cropped_width(400), 210);
    assert_eq!(grown.cropped_height(300), 158);
    assert_aspects(grown, 400, 300);
    // Center preserved: left margin is half the leftover width.
    assert_eq!(grown.left, 95);
    assert_eq!(grown.top, 71);
    // Shrink by 10 returns (round-trip) toward the start.
    let shrunk = resize_crop_box(grown, -10, 400, 300);
    assert_aspects(shrunk, 400, 300);
    assert_eq!(shrunk.cropped_width(400), 200);
    assert_eq!(shrunk.cropped_height(300), 150);
}

#[test]
fn resize_crop_clamps_at_minimum_and_full_frame() {
    let crop = Marg {
        top: 75,
        right: 100,
        bottom: 75,
        left: 100,
    };
    // Growing beyond the frame clamps to full-frame margins.
    let full = resize_crop_box(crop, 10_000, 400, 300);
    assert_eq!(full, Marg::default());
    // Shrinking past the minimum clamps the long edge at MIN_CROP_WINDOW
    // (the width, since 4:3 makes width the long edge).
    let tiny = resize_crop_box(crop, -10_000, 400, 300);
    assert_eq!(tiny.cropped_width(400), MIN_CROP_WINDOW);
    assert_aspects(tiny, 400, 300);
}

#[test]
fn a_window_as_high_as_the_frame_does_not_grow() {
    // 100x300 in a 400x300 frame: growing the width alone would lose the
    // proportion, and the height has no room.
    let tall = Marg { top: 0, right: 150, bottom: 0, left: 150 };
    assert_eq!(resize_crop_box(tall, 10, 400, 300), tall);
    let shrunk = resize_crop_box(tall, -30, 400, 300);
    assert_eq!((shrunk.cropped_width(400), shrunk.cropped_height(300)), (90, 270));
    // A 50x100 window grows until it is as high as the frame.
    let small = Marg { top: 100, right: 175, bottom: 100, left: 175 };
    let grown = resize_crop_box(small, 1_000, 400, 300);
    assert_eq!((grown.cropped_width(400), grown.cropped_height(300)), (150, 300));
    assert_eq!((grown.left, grown.right), (125, 125));
}

#[test]
fn a_window_without_room_for_the_minimum_stays() {
    // Two by three pixels in a frame three pixels high.
    let slim = Marg { top: 0, right: 198, bottom: 0, left: 200 };
    assert_eq!(resize_crop_box(slim, -1, 400, 3), slim);
    // A side of a single pixel never vanishes.
    let line = Marg { top: 10, right: 0, bottom: 9, left: 0 };
    let cut = resize_crop_box(line, -300, 400, 20);
    assert_eq!((cut.cropped_width(400), cut.cropped_height(20)), (100, 1));
}

#[test]
fn crop_margins_cropped_dims_are_saturating() {
    let m = Marg {
        top: 5,
        right: 5,
        bottom: 5,
        left: 5,
    };
    assert_eq!(m.cropped_width(12), 2);
    assert_eq!(m.cropped_height(12), 2);
    // Oversized margins clamp to zero rather than wrapping.
    assert_eq!(m.cropped_width(4), 0);
    assert_eq!(m.cropped_height(4), 0);
}

#[test]
fn dropping_a_roll_keeps_the_other_overviews() {
    let mut cache = LruCache::new(8);
    cache.insert(DetailKey::new("/rolls/a", FilmPreset::Positive, "1.DNG"), 1);
    cache.insert(DetailKey::new("/rolls/b", FilmPreset::Positive, "1.DNG"), 2);
    cache.insert(DetailKey::new("/rolls/a", FilmPreset::TriX, "2.DNG"), 3);
    cache.drop_roll("/rolls/a");
    assert_eq!(cache.len(), 1);
    assert_eq!(
        cache.peek(&DetailKey::new("/rolls/b", FilmPreset::Positive, "1.DNG")),
        Some(&2)
    );
}

#[test]
fn peeking_does_not_refresh_an_entry() {
    let mut cache = LruCache::new(2);
    cache.insert("a".to_owned(), 1);
    cache.insert("b".to_owned(), 2);
    assert_eq!(cache.peek(&"a".to_owned()), Some(&1));
    assert_eq!(cache.insert("c".to_owned(), 3), Some(1));
}

#[test]
fn a_shift_click_off_the_grid_collapses_to_single() {
    let tiles = vec![tile("a"), tile("b")];
    let (set, anchor) = apply_frame_click(NameSet::new(), "b", false, true, Some("gone"), &tiles);
    assert_eq!(set.to_list(), vec!["b".to_owned()]);
    assert_eq!(anchor.as_deref(), Some("b"));
}

#[test]
fn name_sets_keep_their_names_sorted_and_distinct() {
    let mut set = NameSet::new();
    for name in ["c", "a", "b", "a"] {
        set.insert(name);
    }
    assert_eq!(set.to_list(), vec!["a".to_owned(), "b".to_owned(), "c".to_owned()]);
    set.remove("b");
    set.remove("z");
    assert_eq!(set.to_list(), vec!["a".to_owned(), "c".to_owned()]);
    assert!(!set.is_empty());
}

#[test]
fn native_level_up_zoom_fires_at_the_earlier_of_cap_and_threshold() {
    let level_up = |cap: f32| f32::from_bits(native_level_up_zoom_for(single(cap)).bits);
    // A preview whose 1:1 cap sits above the fixed threshold keeps the
    // prefetch trigger: level up at 2x contain before reaching the cap.
    assert_eq!(level_up(5.0), 2.0);
    // A large full-screen preview can put the overview's own 1:1 below 2.0;
    // the trigger must fall back to that cap, otherwise zooming (clamped at
    // 1:1) could never reach the fixed threshold.
    assert_eq!(level_up(1.4), 1.4);
    assert_eq!(level_up(1.0), 1.0);
    // The fallback cap without a picture degrades to the fixed threshold.
    assert_eq!(level_up(7.0), 2.0);
    assert!(level_up(1.4) < 2.0);
}
