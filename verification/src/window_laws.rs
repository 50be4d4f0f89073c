//! What the window does: exports, the context drawer, and that the menus and
//! panels show what can be done.

use vstd::prelude::*;
use crate::drawer::{ContextPage, Drawer, DrawerView};
use crate::edit_manifest::CropMargins;
use crate::editing_laws::first_named;
use crate::effect::EffectModel;
use crate::export::ExportOptions;
use crate::film::BaseMode;
use crate::frame_laws::found_tile;
use crate::library;
use crate::library::SelectionModel;
use crate::library_laws::{first_card, no_card, removing_a_roll};
use crate::message_laws::found_roll;
use crate::names;
use crate::panels::{Preview, SearchControl};
use crate::seqs;
use crate::single::Single;
use crate::state;
use crate::state::Model;
use crate::text;
use crate::work_laws;
use crate::work_laws::{recorded, tone_is_of};

verus! {

/// Whether something can be exported: a roll is open, and frames are selected
/// or one is highlighted.
pub open spec fn can_export(m: Model) -> bool {
    m.active is Some && (m.frame_selected is Some || exists|n: Seq<char>| #[trigger]
        m.selected_frames.contains(n))
}

/// The export dialog opens where something can be exported, no export runs and
/// no dialog is open; otherwise nothing happens.
pub proof fn asking_for_an_export(m: Model)
    ensures
        can_export(m) && !m.export_pending && m.export_progress is None ==> m.export_requested()
            == (Model {
            export_pending: true,
            effects: m.effects.push(EffectModel::OpenExportDialog),
            ..m
        }),
        !can_export(m) || m.export_pending || m.export_progress is Some ==> m.export_requested()
            == m,
{
    reveal(Model::export_requested);
    if m.selected_frames == Set::<Seq<char>>::empty() {
        assert(forall|n: Seq<char>| !m.selected_frames.contains(n));
    } else if forall|n: Seq<char>| !(#[trigger] m.selected_frames.contains(n)) {
        assert(m.selected_frames =~= Set::<Seq<char>>::empty());
    }
}

/// An export writes the selected frames, each once and in the order of their
/// names, or the highlighted one where none is selected.
pub proof fn exports_take_the_selection(m: Model, all: Seq<Seq<char>>)
    requires
        m.active is Some,
        m.selected_frames == all.to_set(),
    ensures
        ({
            let targets = m.export_targets();
            &&& all.len() > 0 ==> {
                &&& forall|i: int, j: int|
                    0 <= i < j < targets.len() ==> text::text_lt(
                        #[trigger] targets[i],
                        #[trigger] targets[j],
                    )
                &&& forall|n: Seq<char>| #[trigger] targets.contains(n) == all.contains(n)
            }
            &&& all.len() == 0 ==> targets == (match m.frame_selected {
                Some(n) => seq![n],
                None => Seq::empty(),
            })
        }),
{
    names::every_list_has_a_listing(all);
    let targets = m.export_targets();
    if all.len() > 0 {
        assert(m.selected_frames.contains(all[0])) by {
            assert(all.contains(all[0]));
        }
        assert(m.selected_frames != Set::<Seq<char>>::empty());
        assert forall|n: Seq<char>| #[trigger] targets.contains(n) == all.contains(n) by {
            assert(targets.to_set().contains(n) == all.to_set().contains(n));
        }
    } else {
        assert(m.selected_frames =~= Set::<Seq<char>>::empty());
    }
}

/// A chosen export begins with every frame that it takes, each with the tone,
/// the crop and the rotation that the manifest records for it and its place in
/// the roll; with the chosen destination and options, the roll's film, black
/// point and start date; and counts from none of them. A cancelled dialog only
/// closes.
pub proof fn chosen_exports_begin(m: Model, dir: Seq<char>, dest: String, options: ExportOptions)
    requires
        m.active == Some(dir),
        m.export_progress is None,
        m.export_targets().len() > 0,
        m.export_targets().len() <= usize::MAX,
    ensures
        ({
            let after = m.export_chosen(Some((dest, options)));
            let targets = m.export_targets();
            &&& !after.export_pending
            &&& after.export_progress == Some((0usize, targets.len() as usize))
            &&& after.effects.len() == m.effects.len() + 1
            &&& m.effects.is_prefix_of(after.effects)
            &&& after.roll == m.roll
            &&& after.effects.last() matches EffectModel::BeginExport {
                dir: d,
                dest: to,
                options: o,
                preset,
                base,
                start_date,
                frames,
            } && {
                &&& d == dir
                &&& to == dest@
                &&& o == options
                &&& work_laws::develops(m.roll, preset, base)
                &&& start_date == m.roll.start_date
                &&& frames.len() == targets.len()
                &&& forall|i: int|
                    0 <= i < frames.len() ==> {
                        let frame = #[trigger] frames[i];
                        let edits = recorded(m.roll, targets[i]);
                        &&& frame.name == targets[i]
                        &&& tone_is_of(frame.tone, edits)
                        &&& frame.crop == edits.crop
                        &&& frame.rotation == edits.rotation % 4
                        &&& forall|k: int| #[trigger]
                            first_named(m.tiles, targets[i], k) ==> frame.index == k
                    }
            }
        }),
        m.export_chosen(None) == (Model { export_pending: false, ..m }),
{
    reveal(Model::export_chosen);
    reveal(Model::export_begun);
    let closed = Model { export_pending: false, ..m };
    let targets = m.export_targets();
    assert(closed.export_targets() == targets);
    let frames = closed.export_frames();
    assert forall|i: int| 0 <= i < frames.len() implies {
        let frame = #[trigger] frames[i];
        let edits = recorded(m.roll, targets[i]);
        &&& frame.name == targets[i]
        &&& tone_is_of(frame.tone, edits)
        &&& frame.crop == edits.crop
        &&& frame.rotation == edits.rotation % 4
        &&& forall|k: int| #[trigger] first_named(m.tiles, targets[i], k) ==> frame.index == k
    } by {
        assert(frames[i] == closed.export_frame(targets[i]));
        assert forall|k: int| #[trigger] first_named(m.tiles, targets[i], k) implies
            frames[i].index == k by {
            found_tile(closed, targets[i], k);
        }
    }
}

/// A crop that is set on the open frame is the crop that an export of that
/// frame carries.
pub proof fn exports_are_cropped_as_on_screen(m: Model, name: Seq<char>, crop: CropMargins)
    requires
        m.selected == Some(name),
    ensures
        m.crop_set(crop).export_frame(name).crop == crop,
        m.crop_set(crop).detail.edit.crop == crop,
{
    reveal(Model::crop_set);
}

/// When an export is over another can begin, and its outcome is told: that all
/// frames were written, or how many were there already, or how many failed.
pub proof fn finished_exports_are_told(
    m: Model,
    ok: int,
    skipped: int,
    failed: int,
    dest: Seq<char>,
    start_date: Option<Seq<char>>,
)
    ensures
        ({
            let after = m.export_finished(ok, skipped, failed, dest, start_date);
            &&& after.export_progress is None
            &&& after.effects.len() == m.effects.len() + 1
            &&& failed == 0 && skipped == 0 ==> after.effects.last() == (EffectModel::ToastDone {
                count: ok,
                dest,
                date: start_date,
            })
            &&& failed == 0 && skipped != 0 ==> after.effects.last() == (
            EffectModel::ToastSkipped { count: ok, dest, skipped })
            &&& failed != 0 ==> after.effects.last() == (EffectModel::ToastFailed {
                count: ok + failed,
                failed,
            })
        }),
{
    reveal(Model::export_finished);
}

/// The page of a view's drawer.
pub open spec fn page_of(view: DrawerView) -> ContextPage {
    match view {
        DrawerView::Library => ContextPage::RollInfo,
        DrawerView::Grid => ContextPage::FrameInfo,
        DrawerView::Detail => ContextPage::Editing,
    }
}

/// The view's own toggle opens a closed drawer on the view's page, where there
/// is something to show, and closes a showing one; each is remembered for the
/// view. The About page gives way to what the view remembers. The menu opens
/// the About page, which remembers nothing.
pub proof fn drawers_open_and_close(drawer: Drawer, view: DrawerView, valid: bool)
    ensures
        !drawer.show && valid ==> {
            let after = drawer.toggled(view, valid);
            after.show && after.page == page_of(view) && after.memory.of(view)
        },
        !drawer.show && !valid ==> !drawer.toggled(view, valid).show,
        drawer.show && drawer.page != ContextPage::About ==> {
            let after = drawer.toggled(view, valid);
            !after.show && !after.memory.of(view)
        },
        drawer.show && drawer.page == ContextPage::About ==> {
            let after = drawer.toggled(view, valid);
            after.page == page_of(view) && after.show == (drawer.memory.of(view) && valid)
                && after.memory == drawer.memory
        },
        drawer.page != ContextPage::About ==> {
            let after = drawer.page_toggled(ContextPage::About, view, valid);
            after.show && after.page == ContextPage::About && after.memory == drawer.memory
        },
        drawer.restored(view, valid).page == page_of(view),
        drawer.restored(view, valid).show == (drawer.memory.of(view) && valid),
{
}

/// Toggling the drawer toggles that of the view on screen: editing in the
/// detail view, the frame's readout on the grid, the roll's data in the library.
/// A readout that comes on screen is asked for.
pub proof fn toggling_the_drawer(m: Model)
    ensures
        ({
            let view = if m.selected is Some {
                DrawerView::Detail
            } else if m.active is Some {
                DrawerView::Grid
            } else {
                DrawerView::Library
            };
            let valid = match view {
                DrawerView::Detail => true,
                DrawerView::Grid => m.frame_selected is Some,
                DrawerView::Library => m.library_selection is Some && m.library_selection
                    != Some(SelectionModel::AddRoll),
            };
            let toggled = Model { drawer: m.drawer.toggled(view, valid), ..m };
            &&& m.context_toggled().drawer == m.drawer.toggled(view, valid)
            &&& !m.drawer.show && valid && view == DrawerView::Grid ==> m.context_toggled()
                == toggled.frame_info_requested()
            &&& m.drawer.show || !valid || view != DrawerView::Grid ==> m.context_toggled()
                == toggled
        }),
{
    reveal(Model::context_toggled);
}

/// A menu entry can be used exactly where its message does something: exports
/// where a dialog would open, copies where there is a frame to copy from,
/// pastes where there is one to paste onto and something to paste, the crop mode
/// in the detail view, the details where the drawer has something to show.
pub proof fn menus_offer_what_can_be_done(m: Model)
    ensures
        ({
            let menu = m.menu();
            &&& menu.export && !m.export_pending ==> m.export_requested().export_pending
            &&& !menu.export ==> m.export_requested() == m
            &&& menu.copy_edits ==> m.copied().clipboard is Some
            &&& !menu.copy_edits ==> m.copied() == m
            &&& menu.paste_edits ==> m.clipboard is Some && (m.frame_selected is Some
                || m.selected is Some)
            &&& m.clipboard is None ==> !menu.paste_edits && m.pasted() == m
            &&& menu.crop_mode == m.selected is Some
            &&& !menu.crop_mode ==> m.crop_mode_toggled() == m
            &&& menu.details == m.drawer_valid(m.current_view())
            &&& menu.calibrate == (m.active is Some && m.roll.strategy()
                == BaseMode::AutoSelectedFrame)
            &&& !menu.calibrate ==> forall|samples: Seq<Single>| #[trigger]
                m.calibrated(samples) == m
            &&& menu.calibrate && (m.selected is Some || m.frame_selected is Some)
                ==> m.calibration_source() is Some
        }),
{
    reveal(Model::export_requested);
    reveal(Model::copied);
    reveal(Model::pasted);
    reveal(Model::crop_mode_toggled);
    reveal(Model::calibrated);
}

/// The menu offers to remove a roll exactly where the library is on screen and
/// a roll is selected, and then it is removed.
pub proof fn removable_rolls_are_removed(m: Model, dir: Seq<char>, k: int)
    requires
        m.library_selection == Some(SelectionModel::Roll(dir)),
        first_card(m.rolls, dir, k),
    ensures
        m.menu().remove_roll == m.active is None,
        m.menu().remove_roll ==> no_card(m.roll_removed(dir).rolls, dir),
        !m.menu().remove_roll ==> m.roll_removed(dir) == m,
{
    if m.active is None {
        removing_a_roll(m, dir, k);
    }
    reveal(Model::roll_removed);
}

/// The header shows no search inside a roll, the field while there is a search,
/// and else the icon, which shows the field. The spinner turns while something
/// is decoded for the open frame, and the progress is that of the export.
pub proof fn the_header_shows_what_goes_on(m: Model)
    ensures
        ({
            let header = m.header_end();
            &&& header.search == SearchControl::Absent <==> m.active is Some
            &&& header.search == SearchControl::Absent ==> m.search_activated() == m
            &&& header.search == SearchControl::Field ==> m.search is Some
            &&& header.search == SearchControl::Icon ==> m.search is None
                && m.search_activated().header_end().search == SearchControl::Field
            &&& header.spinner <==> m.selected is Some && m.detail_inflight is Some
            &&& header.progress == m.export_progress
        }),
{
    reveal(Model::search_activated);
}

/// The drawer's panel is about what is selected: the roll of the library's
/// selection, the highlighted frame of the grid, or the open frame; and there is
/// none while the drawer is closed.
pub proof fn panels_are_about_the_selection(m: Model)
    ensures
        !m.drawer.show ==> m.drawer_panel() is None,
        match m.drawer_panel() {
            Some((page, k)) => {
                &&& page == m.drawer.page
                &&& page == ContextPage::Editing ==> m.selected is Some
                &&& page == ContextPage::RollInfo ==> m.active is None && 0 <= k < m.rolls.len()
                    && m.library_selection == Some(SelectionModel::Roll(m.rolls[k].dir))
                &&& page == ContextPage::FrameInfo ==> m.active is Some && m.selected is None && 0
                    <= k < m.tiles.len() && m.frame_selected == Some(m.tiles[k].name)
            },
            None => true,
        },
        m.drawer.show && m.drawer.page == ContextPage::About ==> m.drawer_panel() is Some,
        m.drawer.show && m.drawer.page == ContextPage::Editing && m.selected is Some
            ==> m.drawer_panel() is Some,
        forall|k: int, dir: Seq<char>|
            m.drawer.show && m.drawer.page == ContextPage::RollInfo && m.active is None
                && m.library_selection == Some(SelectionModel::Roll(dir)) && #[trigger] first_card(
                m.rolls,
                dir,
                k,
            ) ==> m.drawer_panel() == Some((ContextPage::RollInfo, k)),
        forall|k: int, name: Seq<char>|
            m.drawer.show && m.drawer.page == ContextPage::FrameInfo && m.active is Some
                && m.selected is None && m.frame_selected == Some(name) && #[trigger] first_named(
                m.tiles,
                name,
                k,
            ) ==> m.drawer_panel() == Some((ContextPage::FrameInfo, k)),
{
    match m.library_selection {
        Some(SelectionModel::Roll(dir)) => {
            seqs::first_where_is_first(m.rolls, state::in_dir(dir));
        },
        _ => {},
    }
    match m.frame_selected {
        Some(name) => {
            seqs::first_where_is_first(m.tiles, state::named(name));
        },
        None => {},
    }
    assert forall|k: int, dir: Seq<char>|
        m.drawer.show && m.drawer.page == ContextPage::RollInfo && m.active is None
            && m.library_selection == Some(SelectionModel::Roll(dir)) && #[trigger] first_card(
            m.rolls,
            dir,
            k,
        ) implies m.drawer_panel() == Some((ContextPage::RollInfo, k)) by {
        found_roll(m, dir, k);
    }
    assert forall|k: int, name: Seq<char>|
        m.drawer.show && m.drawer.page == ContextPage::FrameInfo && m.active is Some
            && m.selected is None && m.frame_selected == Some(name) && #[trigger] first_named(
            m.tiles,
            name,
            k,
        ) implies m.drawer_panel() == Some((ContextPage::FrameInfo, k)) by {
        found_tile(m, name, k);
    }
}

/// The detail view shows the picture once it is there, with the thumbnail over
/// it as long as that can be seen, and until then how far the thumbnail is; the
/// crossfade is driven on exactly while both are shown.
pub proof fn the_view_shows_what_is_there(m: Model, name: Seq<char>, k: int)
    requires
        m.selected == Some(name),
        first_named(m.tiles, name, k),
    ensures
        ({
            let visible = (Single { bits: 0 }).lt(m.detail.thumb_opacity);
            &&& m.detail.live is None ==> m.preview() == Some(Preview::Waiting(m.tiles[k].thumb))
            &&& m.detail.live is Some && m.detail.thumb is Some && visible ==> m.preview() == Some(
                Preview::Crossfade { thumb: m.detail.thumb.unwrap() },
            )
            &&& m.detail.live is Some && !(m.detail.thumb is Some && visible) ==> m.preview()
                == Some(Preview::Picture)
            &&& m.fade_due() <==> (m.preview() matches Some(p) && p is Crossfade)
        }),
{
    found_tile(m, name, k);
}

/// The editing panel shows the open frame's edits as they are on screen, with
/// the rotation in degrees.
pub proof fn the_panel_shows_the_edits(m: Model)
    requires
        m.detail.live is Some,
    ensures
        m.editing_controls() matches Some(c) && {
            &&& c.exposure_ev == m.detail.edit.exposure_ev
            &&& c.curve_contrast == m.detail.edit.curve_contrast
            &&& c.curve_rolloff == m.detail.edit.curve_rolloff
            &&& c.curve_shadows == m.detail.edit.curve_shadows
            &&& c.crop == m.detail.edit.crop
            &&& c.rotation_degrees == 90 * m.detail.edit.rotation
        },
{
}

/// The library says that nothing matches exactly where it has rolls and none of
/// them answers the search.
pub proof fn nothing_matches_where_none_answers(m: Model, query: Seq<char>)
    requires
        query == (match m.search_filter {
            Some(term) => term,
            None => Seq::empty(),
        }),
    ensures
        m.nothing_matches() <==> m.rolls.len() > 0 && forall|i: int|
            0 <= i < m.rolls.len() ==> !library::answers_all(
                #[trigger] m.rolls[i],
                library::query_terms(query, m.month_aliases),
            ),
{
    assert(state::or_empty(m.search_filter) == query);
    library::grid_places_in_order(m.rolls, query, m.month_aliases);
    let ps = library::grid_places(m.rolls, query, m.month_aliases);
    let terms = library::query_terms(query, m.month_aliases);
    if ps.len() > 0 {
        assert(library::answers_all(m.rolls[ps[0]], terms));
    } else {
        assert forall|i: int| 0 <= i < m.rolls.len() implies !library::answers_all(
            #[trigger] m.rolls[i],
            terms,
        ) by {
            if library::answers_all(m.rolls[i], terms) {
                assert(ps.contains(i));
            }
        }
    }
}

} // verus!
