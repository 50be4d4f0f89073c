//! What the frame grid and the detail view do: listing, selecting, moving
//! between and opening frames, and what becomes of decodes.

use vstd::prelude::*;
use crate::edit_manifest::{EditData, ManifestModel};
use crate::editing_laws::{asking_lasts, asks, beginnings_add_up, first_named, starting_decodes_is_all};
use crate::effect::{EffectModel, GridId};
use crate::film::BaseMode;
use crate::library;
use crate::library::{MoveDir, SelectionModel, Thumb};
use crate::library_laws::asks_in_order;
use crate::lru;
use crate::message::{FrameMeta, Point};
use crate::pumps;
use crate::seqs;
use crate::single::Single;
use crate::state;
use crate::state::{Model, TileModel};
use crate::work_laws::recorded;

verus! {

/// The first frame of a name is the one that is found.
pub proof fn found_tile(m: Model, name: Seq<char>, k: int)
    requires
        first_named(m.tiles, name, k),
    ensures
        m.tile_at(name) == Some(k),
{
    assert forall|j: int| 0 <= j < k implies !state::named(name)(#[trigger] m.tiles[j]) by {
        assert(m.tiles[j].name != name);
    }
    seqs::first_where_from_place(m.tiles, state::named(name), k);
}

/// Whether no frame has a name.
pub open spec fn no_frame(tiles: Seq<TileModel>, name: Seq<char>) -> bool {
    forall|j: int| 0 <= j < tiles.len() ==> (#[trigger] tiles[j]).name != name
}

proof fn missing_tile(m: Model, name: Seq<char>)
    requires
        no_frame(m.tiles, name),
    ensures
        m.tile_at(name) is None,
{
    seqs::first_where_is_first(m.tiles, state::named(name));
}

/// Asking for a readout changes nothing but that.
proof fn readouts_are_all(m: Model)
    ensures
        m.frame_info_requested() == (Model {
            frame_meta_inflight: m.frame_info_requested().frame_meta_inflight,
            effects: m.frame_info_requested().effects,
            ..m
        }),
        m.effects.is_prefix_of(m.frame_info_requested().effects),
{
}

/// The frames of an opened roll are its files, in their order, all to be
/// decoded, and the first is highlighted. The edits are those that the manifest
/// records for files that are there; all else in the manifest stays. Where the
/// strategy goes by a designated frame and there is none, the first is
/// designated, that is written, and its measurement asked for.
pub proof fn listing_a_roll(
    m: Model,
    dir: Seq<char>,
    files: Seq<Seq<char>>,
    manifest: ManifestModel,
)
    requires
        m.active == Some(dir),
    ensures
        ({
            let after = m.roll_opened(dir, files, manifest);
            let due = manifest.strategy() == BaseMode::AutoSelectedFrame
                && manifest.calibration_frame is None && files.len() > 0;
            &&& after.active == Some(dir)
            &&& after.tiles.len() == files.len()
            &&& forall|i: int|
                0 <= i < files.len() ==> (#[trigger] after.tiles[i]).name == files[i]
                    && after.tiles[i].thumb == Thumb::Loading && after.tiles[i].meta is None
                    && !after.tiles[i].meta_failed
            &&& forall|n: Seq<char>|
                #![trigger recorded(after.roll, n)]
                files.contains(n) ==> recorded(after.roll, n) == recorded(manifest, n)
            &&& forall|n: Seq<char>|
                #![trigger after.roll.edits.dom().contains(n)]
                !files.contains(n) ==> !after.roll.edits.dom().contains(n)
            &&& after.roll == (ManifestModel {
                edits: after.roll.edits,
                calibration_frame: after.roll.calibration_frame,
                ..manifest
            })
            &&& after.roll.calibration_frame == (if due {
                Some(files[0])
            } else {
                manifest.calibration_frame
            })
            &&& due ==> asks_in_order(
                m,
                after,
                EffectModel::SaveManifest { dir, manifest: after.roll },
                EffectModel::MeasureCalibration { dir },
            )
            &&& files.len() > 0 ==> {
                &&& after.frame_selected == Some(files[0])
                &&& after.selection_anchor == Some(files[0])
                &&& forall|n: Seq<char>| #[trigger]
                    after.selected_frames.contains(n) == (n == files[0])
            }
            &&& after.selected == m.selected
            &&& after.drawer.page == crate::drawer::ContextPage::FrameInfo
            &&& files.len() > 0 ==> after.drawer.show == m.drawer.memory.grid
            &&& after.drawer.memory == m.drawer.memory
        }),
{
    reveal(Model::roll_opened);
    reveal(Model::frames_listed);
    reveal(Model::calibration_defaulted);
    let listed = m.frames_listed(files, manifest);
    let begun = listed.calibration_defaulted(dir);
    let after = m.roll_opened(dir, files, manifest);
    starting_decodes_is_all(begun);
    let shown = begun.thumbs_pumped();
    readouts_are_all(shown);
    assert forall|n: Seq<char>|
        #![trigger recorded(after.roll, n)]
        files.contains(n) implies recorded(after.roll, n) == recorded(manifest, n) by {
        assert(files.to_set().contains(n));
    }
    assert forall|n: Seq<char>|
        #![trigger after.roll.edits.dom().contains(n)]
        !files.contains(n) implies !after.roll.edits.dom().contains(n) by {
        assert(!files.to_set().contains(n));
    }
    let due = manifest.strategy() == BaseMode::AutoSelectedFrame && manifest.calibration_frame
        is None && files.len() > 0;
    assert(listed.tiles.len() == files.len());
    if due {
        let k = m.effects.len() as int;
        assert(begun.effects[k] == EffectModel::SaveManifest { dir, manifest: begun.roll });
        assert(begun.effects[k + 1] == EffectModel::MeasureCalibration { dir });
        beginnings_add_up(begun.effects, shown.effects, after.effects);
        assert(after.effects.subrange(0, begun.effects.len() as int)[k] == after.effects[k]);
        assert(after.effects.subrange(0, begun.effects.len() as int)[k + 1] == after.effects[k
            + 1]);
    }
}

/// A clicked frame is highlighted. A plain click selects it alone; with Ctrl it
/// joins or leaves the selection, and the others stay; with Shift all frames
/// from the anchor through it are selected, and no others.
pub proof fn clicking_a_frame(m: Model, name: Seq<char>)
    ensures
        ({
            let after = m.frame_clicked(name);
            let was = m.selected_frames;
            let now = after.selected_frames;
            &&& after.frame_selected == Some(name)
            &&& !m.modifiers.control && !m.modifiers.shift ==> {
                &&& forall|n: Seq<char>| #[trigger] now.contains(n) == (n == name)
                &&& after.selection_anchor == Some(name)
            }
            &&& m.modifiers.shift && !m.modifiers.control && (m.selection_anchor is None || no_frame(
                m.tiles,
                m.selection_anchor.unwrap(),
            ) || no_frame(m.tiles, name)) ==> {
                &&& forall|n: Seq<char>| #[trigger] now.contains(n) == (n == name)
                &&& after.selection_anchor == Some(name)
            }
            &&& m.modifiers.control && !m.modifiers.shift ==> {
                &&& now.contains(name) == !was.contains(name)
                &&& forall|n: Seq<char>|
                    n != name ==> #[trigger] now.contains(n) == was.contains(n)
                &&& after.selection_anchor == (if was.contains(name) {
                    m.selection_anchor
                } else {
                    Some(name)
                })
            }
            &&& after.roll == m.roll && after.tiles == m.tiles && after.selected == m.selected
        }),
{
    reveal(Model::frame_clicked);
    if no_frame(m.tiles, name) {
        missing_tile(m, name);
    }
    if m.selection_anchor is Some && no_frame(m.tiles, m.selection_anchor.unwrap()) {
        missing_tile(m, m.selection_anchor.unwrap());
    }
}

/// With Shift a click selects the frames between the anchor and itself, both
/// included, whichever comes first.
pub proof fn clicking_a_range(m: Model, name: Seq<char>, i: int, j: int)
    requires
        m.modifiers.shift,
        m.selection_anchor is Some,
        first_named(m.tiles, m.selection_anchor.unwrap(), i),
        first_named(m.tiles, name, j),
    ensures
        ({
            let after = m.frame_clicked(name);
            let lo = if i <= j {
                i
            } else {
                j
            };
            let hi = if i <= j {
                j
            } else {
                i
            };
            &&& after.selection_anchor == Some(name)
            &&& forall|k: int|
                lo <= k <= hi ==> after.selected_frames.contains((#[trigger] m.tiles[k]).name)
            &&& forall|n: Seq<char>| #[trigger]
                after.selected_frames.contains(n) ==> exists|k: int|
                    lo <= k <= hi && (#[trigger] m.tiles[k]).name == n
        }),
{
    reveal(Model::frame_clicked);
    found_tile(m, m.selection_anchor.unwrap(), i);
    found_tile(m, name, j);
    let after = m.frame_clicked(name);
    let lo = if i <= j {
        i
    } else {
        j
    };
    let hi = if i <= j {
        j
    } else {
        i
    };
    let part = pumps::tile_names(m.tiles.subrange(lo, hi + 1));
    assert(after.selected_frames == part.to_set());
    assert forall|k: int| lo <= k <= hi implies after.selected_frames.contains(
        (#[trigger] m.tiles[k]).name,
    ) by {
        assert(part[k - lo] == m.tiles[k].name);
        assert(part.contains(m.tiles[k].name));
    }
    assert forall|n: Seq<char>| #[trigger] after.selected_frames.contains(n) implies exists|k: int|
        lo <= k <= hi && (#[trigger] m.tiles[k]).name == n by {
        assert(part.contains(n));
        let p = choose|p: int| 0 <= p < part.len() && part[p] == n;
        assert(m.tiles[lo + p].name == n);
    }
}

/// Selecting all selects each frame of the open roll, and nothing else.
pub proof fn selecting_all(m: Model, name: Seq<char>)
    requires
        m.active is Some,
    ensures
        m.all_selected().selected_frames.contains(name) <==> !no_frame(m.tiles, name),
        m.all_selected() == (Model { selected_frames: m.all_selected().selected_frames, ..m }),
{
    reveal(Model::all_selected);
    let all = pumps::tile_names(m.tiles);
    if m.all_selected().selected_frames.contains(name) {
        assert(all.contains(name));
        let k = choose|k: int| 0 <= k < all.len() && all[k] == name;
        assert(m.tiles[k].name == name);
    }
    if !no_frame(m.tiles, name) {
        let k = choose|k: int| 0 <= k < m.tiles.len() && (#[trigger] m.tiles[k]).name == name;
        assert(all[k] == name);
    }
}

/// Where an arrow leads from a place among `len`, in rows of `cols`: one place
/// to the left or right, or one row up or down, but not beyond the first and
/// the last.
pub open spec fn leads_to(from: int, len: int, cols: int, dir: MoveDir, to: int) -> bool {
    match dir {
        MoveDir::Left => to == from - 1 && to >= 0 || (from == 0 && to == 0),
        MoveDir::Right => to == from + 1 && to < len || (from == len - 1 && to == from),
        MoveDir::Up => to == from - cols && to >= 0 || (from < cols && to == 0),
        MoveDir::Down => to == from + cols && to < len || (from + cols >= len && to == len - 1),
    }
}

/// The columns of the grid: as it reported them, or else as the window's width
/// has room for, and one at least.
pub open spec fn columns(m: Model) -> int {
    let cols = match m.viewport_cols {
        Some(c) => c as int,
        None => m.grid_cols as int,
    };
    if cols < 1 {
        1
    } else {
        cols
    }
}

/// On the frame grid an arrow key moves the highlight one place or one row as it
/// points, and brings it into view. Alone it selects that frame; with Shift it
/// adds it. Without a highlight it goes to the first frame.
pub proof fn arrows_move_the_highlight(m: Model, dir: MoveDir, i: int, to: int)
    requires
        m.active is Some,
        m.selected is None,
        !m.detail.crop_mode,
        0 <= to < m.tiles.len(),
        match m.frame_selected {
            Some(name) => first_named(m.tiles, name, i) && leads_to(
                i,
                m.tiles.len() as int,
                columns(m),
                dir,
                to,
            ),
            None => to == 0,
        },
    ensures
        ({
            let after = m.navigated(dir);
            &&& after.frame_selected == Some(m.tiles[to].name)
            &&& after.selection_anchor == Some(m.tiles[to].name)
            &&& forall|n: Seq<char>| #[trigger]
                after.selected_frames.contains(n) == (n == m.tiles[to].name || (m.modifiers.shift
                    && m.selected_frames.contains(n)))
            &&& asks(
                m,
                after,
                EffectModel::ScrollTo {
                    grid: GridId::Frames,
                    index: to,
                    len: m.tiles.len() as int,
                    cols: columns(m),
                },
            )
            &&& after.selected is None
            &&& after.roll == m.roll
        }),
{
    reveal(Model::navigated);
    reveal(Model::frame_navigated);
    if m.frame_selected is Some {
        found_tile(m, m.frame_selected.unwrap(), i);
    }
    let now = match m.frame_selected {
        Some(n) => m.tile_at(n),
        None => None,
    };
    let len = m.tiles.len() as int;
    assert(m.nav_cols() == columns(m));
    assert(library::nav_place(now, len, m.nav_cols(), dir) == Some(to));
    let e = EffectModel::ScrollTo { grid: GridId::Frames, index: to, len, cols: columns(m) };
    let lit = m.highlighting(m.tiles[to].name).emitting(e);
    readouts_are_all(lit);
    assert(lit.effects[m.effects.len() as int] == e);
    asking_lasts(m, lit, m.navigated(dir), e);
}

/// In the detail view left and right open the frame before and the one behind,
/// as far as there are any; up and down do nothing.
pub proof fn arrows_page_through_the_view(m: Model, dir: MoveDir, open: Seq<char>, i: int)
    requires
        m.active is Some,
        m.selected == Some(open),
        !m.detail.crop_mode,
        first_named(m.tiles, open, i),
    ensures
        dir == MoveDir::Left && i > 0 ==> m.navigated(dir) == m.frame_opened(m.tiles[i - 1].name),
        dir == MoveDir::Right && i + 1 < m.tiles.len() ==> m.navigated(dir) == m.frame_opened(
            m.tiles[i + 1].name,
        ),
        dir == MoveDir::Left && i == 0 ==> m.navigated(dir) == m.frame_opened(open),
        dir == MoveDir::Right && i + 1 == m.tiles.len() ==> m.navigated(dir) == m.frame_opened(
            open,
        ),
        dir == MoveDir::Up || dir == MoveDir::Down ==> m.navigated(dir) == m,
{
    reveal(Model::navigated);
    reveal(Model::frame_navigated);
    found_tile(m, open, i);
}

/// In the library an arrow key moves the selection one cell or one row as it
/// points, and brings it into view.
pub proof fn arrows_move_the_library_selection(m: Model, dir: MoveDir, i: int, to: int)
    requires
        m.active is None,
        !m.detail.crop_mode,
        0 <= i < m.library_grid().len(),
        m.library_selection == Some(m.library_grid()[i]),
        forall|j: int| 0 <= j < i ==> #[trigger] m.library_grid()[j] != m.library_grid()[i],
        0 <= to < m.library_grid().len(),
        leads_to(i, m.library_grid().len() as int, columns(m), dir, to),
    ensures
        m.navigated(dir).library_selection == Some(m.library_grid()[to]),
        m.navigated(dir).effects == m.effects.push(
            EffectModel::ScrollTo {
                grid: GridId::Rolls,
                index: to,
                len: m.library_grid().len() as int,
                cols: columns(m),
            },
        ),
{
    reveal(Model::navigated);
    reveal(Model::library_navigated);
    let cells = m.library_grid();
    let test = library::is_selection(cells[i]);
    assert forall|j: int| 0 <= j < i implies !test(#[trigger] cells[j]) by {}
    seqs::first_where_from_place(cells, test, i);
    assert(m.nav_cols() == columns(m));
    assert(library::nav_place(Some(i), cells.len() as int, m.nav_cols(), dir) == Some(to));
}

/// From every place an arrow leads to some place.
pub proof fn arrows_always_lead_somewhere(from: int, len: int, cols: int, dir: MoveDir)
    requires
        0 <= from < len,
        cols >= 1,
    ensures
        exists|to: int| 0 <= to < len && #[trigger] leads_to(from, len, cols, dir, to),
{
    let to = library::step(from, len, cols, dir);
    assert(0 <= to < len && leads_to(from, len, cols, dir, to));
}

/// The library grid shows the Add Roll tile first, unless a search is applied,
/// and then the rolls that answer the search.
pub proof fn the_library_grid(m: Model, query: Seq<char>)
    requires
        query == (match m.search_filter {
            Some(term) => term,
            None => Seq::empty(),
        }),
    ensures
        ({
            let cells = m.library_grid();
            let places = library::grid_places(m.rolls, query, m.month_aliases);
            let lead: int = if library::blank(query) {
                1
            } else {
                0
            };
            &&& cells.len() == lead + places.len()
            &&& library::blank(query) ==> cells[0] == SelectionModel::AddRoll
            &&& forall|i: int|
                lead <= i < cells.len() ==> #[trigger] cells[i] == SelectionModel::Roll(
                    m.rolls[places[i - lead]].dir,
                )
        }),
{
    assert(state::or_empty(m.search_filter) == query);
}

/// A decoded thumbnail is shown on its frame, and one that failed is marked so;
/// no other frame changes.
pub proof fn thumbnails_land_on_their_frame(
    m: Model,
    name: Seq<char>,
    picture: Option<u64>,
    k: int,
)
    requires
        first_named(m.tiles, name, k),
    ensures
        ({
            let after = m.thumb_decoded(name, picture);
            &&& after.tiles.len() == m.tiles.len()
            &&& after.tiles[k] == (TileModel {
                thumb: match picture {
                    Some(p) => Thumb::Ready(p),
                    None => Thumb::Failed,
                },
                ..m.tiles[k]
            })
            &&& forall|j: int|
                0 <= j < m.tiles.len() && j != k ==> #[trigger] after.tiles[j] == m.tiles[j]
            &&& after.roll == m.roll && after.detail == m.detail
        }),
{
    reveal(Model::thumb_decoded);
    found_tile(m, name, k);
    let shown = m.with_thumb(k, crate::library_page::decoded(picture));
    let free = Model { thumb_inflight: seqs::without(shown.thumb_inflight, name), ..shown };
    starting_decodes_is_all(free);
}

/// A readout is kept with its frame, and one that failed is not tried again; no
/// other frame changes.
pub proof fn readouts_land_on_their_frame(
    m: Model,
    name: Seq<char>,
    meta: Option<FrameMeta>,
    k: int,
)
    requires
        first_named(m.tiles, name, k),
    ensures
        ({
            let after = m.frame_info_read(name, meta);
            &&& after.tiles.len() == m.tiles.len()
            &&& meta is Some ==> after.tiles[k] == (TileModel { meta, ..m.tiles[k] })
            &&& meta is None ==> after.tiles[k] == (TileModel { meta_failed: true, ..m.tiles[k] })
            &&& forall|j: int|
                0 <= j < m.tiles.len() && j != k ==> #[trigger] after.tiles[j] == m.tiles[j]
            &&& after.frame_meta_inflight != Some(name)
            &&& m.frame_meta_inflight != Some(name) ==> after.frame_meta_inflight
                == m.frame_meta_inflight
            &&& after.effects == m.effects
        }),
{
    reveal(Model::frame_info_read);
    found_tile(m, name, k);
}

/// A readout is asked for exactly where the drawer shows the highlighted
/// frame's, it was neither read nor failed, and it is not under way.
pub proof fn readouts_are_asked_for_when_shown(m: Model, dir: Seq<char>, name: Seq<char>, k: int)
    requires
        m.active == Some(dir),
        m.frame_selected == Some(name),
        first_named(m.tiles, name, k),
    ensures
        ({
            let after = m.frame_info_requested();
            let due = m.drawer.show && m.drawer.page == crate::drawer::ContextPage::FrameInfo
                && m.tiles[k].meta is None && !m.tiles[k].meta_failed && m.frame_meta_inflight
                != Some(name);
            &&& due ==> after.effects == m.effects.push(EffectModel::LoadFrameInfo { dir, name })
                && after.frame_meta_inflight == Some(name)
            &&& !due ==> after == m
        }),
{
    found_tile(m, name, k);
}

/// A frame that is opened is on screen with the edits that are recorded for it,
/// to which a reset goes back; it is highlighted and selected, and what was
/// edited before is written.
pub proof fn entering_a_frame(m: Model, dir: Seq<char>, name: Seq<char>)
    requires
        m.active == Some(dir),
        m.selected != Some(name),
    ensures
        ({
            let after = m.frame_entered(name);
            let edits = EditData {
                rotation: (recorded(m.roll, name).rotation % 4) as u8,
                ..recorded(m.roll, name)
            };
            &&& after.selected == Some(name)
            &&& after.frame_selected == Some(name)
            &&& after.selection_anchor == Some(name)
            &&& forall|n: Seq<char>| #[trigger]
                after.selected_frames.contains(n) == (n == name || (m.modifiers.shift
                    && m.selected_frames.contains(n)))
            &&& after.detail.edit == edits
            &&& after.detail.reset == edits
            &&& after.detail.live is None
            &&& !after.detail.crop_mode
            &&& after.detail.zoom == Single { bits: 0x3f80_0000 }
            &&& after.detail.pan == Point { x: Single { bits: 0 }, y: Single { bits: 0 } }
            &&& !after.detail.panning && !after.detail.native_queued
            &&& after.detail.thumb is None
            &&& !after.editing_key_held
            &&& after.drawer.page == crate::drawer::ContextPage::Editing
            &&& after.drawer.show == m.drawer.memory.detail
            &&& after.drawer.memory == m.drawer.memory
            &&& after.roll == m.roll
            &&& after.tiles == m.tiles
            &&& after.detail_inflight == m.detail_inflight
            &&& after.detail_cache == m.detail_cache
            &&& after.effects == m.effects.push(
                EffectModel::SaveManifest { dir, manifest: m.roll },
            )
        }),
{
    reveal(Model::frame_entered);
}

/// Where the detail view has no picture and none is decoded for it, its frame's
/// overview is shown at once if it is cached under the roll's film, and else
/// asked for.
pub proof fn the_view_is_served(m: Model, dir: Seq<char>, name: Seq<char>)
    requires
        m.active == Some(dir),
        m.selected == Some(name),
        m.detail.live is None,
        m.detail_inflight is None,
    ensures
        ({
            let after = m.detail_pumped();
            let key = (dir, m.roll.film(), name);
            &&& !lru::holds(m.detail_cache, key) ==> {
                &&& after.detail_inflight == Some(name)
                &&& after.effects.len() == m.effects.len() + 1
                &&& after.effects.last() is DecodeDetail
                &&& after.effects.last()->DecodeDetail_name == name
                &&& after.effects.last()->DecodeDetail_dir == dir
                &&& after.effects.last()->DecodeDetail_cap == 2048
            }
            &&& lru::holds(m.detail_cache, key) ==> exists|i: int|
                {
                    &&& 0 <= i < m.detail_cache.len()
                    &&& (#[trigger] m.detail_cache[i]).0 == key
                    &&& after.detail.live is Some
                    &&& after.detail.live.unwrap().mono == m.detail_cache[i].1
                    &&& after.detail_inflight is None
                }
        }),
{
    reveal(Model::detail_pumped);
    reveal(Model::detail_requested);
    reveal(Model::installed);
    let key = (dir, m.roll.film(), name);
    lru::position_is_first(m.detail_cache, key);
    if lru::holds(m.detail_cache, key) {
        let i = lru::position(m.detail_cache, key);
        assert(m.detail_cache[i].0 == key);
    }
}

/// Opening a frame enters it, serves its view, and preloads its neighbors.
pub proof fn opening_a_frame(m: Model, name: Seq<char>)
    ensures
        m.selected != Some(name) ==> m.frame_opened(name)
            == m.frame_entered(name).detail_pumped().neighbors_pumped(name),
        m.selected == Some(name) ==> m.frame_opened(name) == m.detail_pumped().neighbors_pumped(
            name,
        ),
        m.frame_opened(name).selected == Some(name),
{
    reveal(Model::frame_opened);
    reveal(Model::frame_entered);
    reveal(Model::detail_pumped);
    reveal(Model::detail_requested);
    reveal(Model::installed);
    reveal(Model::neighbors_pumped);
}

/// Preloading starts the neighbors of a frame that are neither cached nor under
/// way, while fewer than two are, and asks for each that it starts.
pub proof fn neighbors_are_preloaded(m: Model, dir: Seq<char>, name: Seq<char>, k: int)
    requires
        m.active == Some(dir),
        first_named(m.tiles, name, k),
        m.detail_preload_inflight.len() == 0,
    ensures
        ({
            let after = m.neighbors_pumped(name);
            let wanted = |n: Seq<char>| !lru::holds(m.detail_cache, (dir, m.roll.film(), n));
            &&& k >= 1 && wanted(m.tiles[k - 1].name) ==> after.detail_preload_inflight.contains(
                (dir, m.tiles[k - 1].name),
            )
            &&& k + 1 < m.tiles.len() && wanted(m.tiles[k + 1].name)
                ==> after.detail_preload_inflight.contains((dir, m.tiles[k + 1].name))
            &&& after.effects.len() - m.effects.len() == after.detail_preload_inflight.len()
            &&& forall|i: int|
                m.effects.len() <= i < after.effects.len() ==> (
                #[trigger] after.effects[i]) is PreloadDetail && (
                after.effects[i]->PreloadDetail_dir, after.effects[i]->PreloadDetail_name)
                    == after.detail_preload_inflight[i - m.effects.len()]
        }),
{
    reveal(Model::neighbors_pumped);
    found_tile(m, name, k);
    let after = m.neighbors_pumped(name);
    let all = pumps::neighbors(m.tiles, k);
    let test = pumps::preload_due(m, dir);
    let found = all.filter(test);
    assert(all.len() <= 2);
    all.lemma_filter_len(test);
    let next = m.next_preloads(dir, k);
    assert(next == found);
    assert(after.detail_preload_inflight =~= pumps::of_roll(dir, next));
    if k >= 1 {
        let n = m.tiles[k - 1].name;
        assert(all[0] == n);
        if !lru::holds(m.detail_cache, (dir, m.roll.film(), n)) {
            assert(test(all[0]));
            all.lemma_filter_contains(test, 0);
            let p = choose|p: int| 0 <= p < found.len() && found[p] == n;
            assert(after.detail_preload_inflight[p] == (dir, n));
        }
    }
    if k + 1 < m.tiles.len() {
        let n = m.tiles[k + 1].name;
        let at: int = if k >= 1 {
            1
        } else {
            0
        };
        assert(all[at] == n);
        if !lru::holds(m.detail_cache, (dir, m.roll.film(), n)) {
            assert(test(all[at]));
            all.lemma_filter_contains(test, at);
            let p = choose|p: int| 0 <= p < found.len() && found[p] == n;
            assert(after.detail_preload_inflight[p] == (dir, n));
        }
    }
}

} // verus!
