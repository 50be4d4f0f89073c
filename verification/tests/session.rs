//! Whole sessions: what the application does with a run of messages.

use curvectrl::config::Config;
use curvectrl::detail_area::{AreaSignal, AreaState, DetailArea, PointerEvent};
use curvectrl::drawer::{ContextPage, DrawerView};
use curvectrl::edit_manifest::{CropMargins, RollManifest, ToneEdit};
use curvectrl::effect::{Effect, GridId};
use curvectrl::export::{ExportOptions, ExportPreset};
use curvectrl::film::{BaseMode, FilmPreset};
use curvectrl::keys::{key_action, KeyAction, KeyEvent, MenuAction, NamedKey};
use curvectrl::library::{LibrarySelection, MonthAliases, MoveDir, Roll, Thumb};
use curvectrl::message::{
    DetailMono, EditAdjust, FrameMeta, Message, Modifiers, Point, RollDateField,
};
use curvectrl::panels::{
    card_dates, preset_option, roll_choices, CardDates, DrawerPanel, Preview, SearchControl,
};
use curvectrl::single::Single;
use curvectrl::state::AppModel;

const MONTHS: [&str; 12] = [
    "Jan", "Feb", "Mar", "Apr", "May", "Jun", "Jul", "Aug", "Sep", "Oct", "Nov", "Dec",
];

const NO_KEYS: Modifiers = Modifiers { control: false, shift: false, alt: false };

fn single(value: f32) -> Single {
    Single { bits: value.to_bits() }
}

fn point(x: f32, y: f32) -> Point {
    Point { x: single(x), y: single(y) }
}

fn roll(dir: &str, name: &str, start: Option<&str>) -> Roll {
    Roll {
        dir: dir.to_owned(),
        name: name.to_owned(),
        cover: Some("1.dng".to_owned()),
        frame_count: 3,
        preset: FilmPreset::Positive,
        base_mode: BaseMode::Preset,
        start_date: start.map(str::to_owned),
        end_date: None,
        thumb: Thumb::Loading,
    }
}

fn fresh() -> AppModel {
    AppModel::new(Config { rolls: Vec::new() }, MonthAliases::new(&MONTHS.map(str::to_owned)))
}

/// The library with two rolls.
fn library() -> (AppModel, Vec<Effect>) {
    let config = Config { rolls: vec!["/r/a".to_owned(), "/r/b".to_owned()] };
    let mut app = AppModel::new(config, MonthAliases::new(&MONTHS.map(str::to_owned)));
    let effects = app.update(Message::RollsLoaded(vec![
        roll("/r/a", "Alps", Some("2024-05-09")),
        roll("/r/b", "Berlin", None),
    ]));
    (app, effects)
}

fn names(count: usize) -> Vec<String> {
    (1..=count).map(|i| format!("{i}.dng")).collect()
}

/// A roll with frames, open on its grid.
fn grid(count: usize) -> (AppModel, Vec<Effect>) {
    let (mut app, _) = library();
    app.update(Message::RollActivated("/r/a".to_owned()));
    let effects = app.update(Message::RollOpened(
        "/r/a".to_owned(),
        names(count),
        RollManifest::default(),
    ));
    (app, effects)
}

fn picture(buffer: u64) -> DetailMono {
    DetailMono { buffer, source_width: 400, source_height: 300, src_long_edge: 400 }
}

fn ready(name: &str, buffer: u64) -> Message {
    Message::DetailReady {
        name: name.to_owned(),
        preset: FilmPreset::Positive,
        result: Ok(picture(buffer)),
        cap: single(3.0),
        one_to_one: single(3.0),
    }
}

/// A frame in the detail view, with its picture on screen.
fn viewing(name: &str) -> AppModel {
    let (mut app, _) = grid(5);
    app.update(Message::ThumbnailActivated(name.to_owned()));
    app.update(ready(name, 7));
    app
}

fn thumbs(effects: &[Effect]) -> Vec<String> {
    effects
        .iter()
        .filter_map(|e| match e {
            Effect::DecodeThumbnail { name, .. } => Some(name.clone()),
            _ => None,
        })
        .collect()
}

fn saved(effects: &[Effect]) -> Option<&RollManifest> {
    effects.iter().find_map(|e| match e {
        Effect::SaveManifest { manifest, .. } => Some(manifest),
        _ => None,
    })
}

fn persisted(effects: &[Effect]) -> Option<&Vec<String>> {
    effects.iter().find_map(|e| match e {
        Effect::PersistConfig { rolls } => Some(rolls),
        _ => None,
    })
}

#[test]
fn the_library_decodes_the_covers_of_its_rolls() {
    let (app, effects) = library();
    let covers: Vec<&str> = effects
        .iter()
        .filter_map(|e| match e {
            Effect::DecodeCover { dir, .. } => Some(dir.as_str()),
            _ => None,
        })
        .collect();
    assert_eq!(covers.len(), 2);
    assert_eq!(app.rolls.len(), 2);
    assert!(app.active.is_none());
}

#[test]
fn covers_are_shown_once_decoded() {
    let (mut app, _) = library();
    app.update(Message::CoverReady("/r/a".to_owned(), Some(3)));
    app.update(Message::CoverReady("/r/b".to_owned(), None));
    let thumb = |dir: &str| app.rolls.iter().find(|r| r.dir == dir).unwrap().thumb;
    assert_eq!(thumb("/r/a"), Thumb::Ready(3));
    assert_eq!(thumb("/r/b"), Thumb::Failed);
    assert!(app.cover_inflight.is_empty());
}

#[test]
fn opening_a_roll_lists_it() {
    let (mut app, _) = library();
    let effects = app.update(Message::RollActivated("/r/a".to_owned()));
    assert!(effects
        .iter()
        .any(|e| matches!(e, Effect::LoadFiles { dir } if dir == "/r/a")));
    assert_eq!(app.active.as_deref(), Some("/r/a"));
    assert_eq!(app.current_view(), DrawerView::Grid);
}

#[test]
fn no_more_than_four_thumbnails_decode_at_once() {
    let (mut app, effects) = grid(6);
    assert_eq!(thumbs(&effects), vec!["1.dng", "2.dng", "3.dng", "4.dng"]);
    // A finished decode makes room for the next frame.
    let effects = app.update(Message::ThumbReady("2.dng".to_owned(), Some(9)));
    assert_eq!(thumbs(&effects), vec!["5.dng"]);
    assert_eq!(app.tiles[1].thumb, Thumb::Ready(9));
    let effects = app.update(Message::ThumbReady("1.dng".to_owned(), None));
    assert_eq!(thumbs(&effects), vec!["6.dng"]);
    assert_eq!(app.tiles[0].thumb, Thumb::Failed);
    let effects = app.update(Message::ThumbReady("3.dng".to_owned(), Some(1)));
    assert!(thumbs(&effects).is_empty());
}

#[test]
fn a_list_for_another_roll_changes_nothing() {
    let (mut app, _) = grid(3);
    let effects = app.update(Message::RollOpened(
        "/r/b".to_owned(),
        names(9),
        RollManifest::default(),
    ));
    assert_eq!(app.tiles.len(), 3);
    assert!(thumbs(&effects).is_empty());
}

#[test]
fn edits_of_files_that_are_gone_are_dropped() {
    let (mut app, _) = library();
    app.update(Message::RollActivated("/r/a".to_owned()));
    let mut manifest = RollManifest::default();
    manifest.set_exposure("gone.dng", single(1.0));
    manifest.set_exposure("1.dng", single(0.5));
    app.update(Message::RollOpened("/r/a".to_owned(), names(2), manifest));
    assert_eq!(app.roll.edits.len(), 1);
    assert_eq!(app.roll.tone("1.dng").exposure_ev, single(0.5));
}

#[test]
fn opening_a_frame_decodes_it() {
    let (mut app, _) = grid(5);
    let effects = app.update(Message::ThumbnailActivated("3.dng".to_owned()));
    assert!(effects.iter().any(|e| matches!(
        e,
        Effect::DecodeDetail { name, cap: 2048, .. } if name == "3.dng"
    )));
    assert!(app.header_end().spinner);
    assert_eq!(app.current_view(), DrawerView::Detail);
    assert_eq!(app.detail_preview(), Some(Preview::Waiting(Thumb::Loading)));
}

#[test]
fn a_decoded_frame_is_shown_and_its_neighbors_are_preloaded() {
    let (mut app, _) = grid(5);
    let effects = app.update(Message::ThumbnailActivated("3.dng".to_owned()));
    app.update(ready("3.dng", 7));
    assert_eq!(app.detail.live.unwrap().mono, picture(7));
    assert!(!app.header_end().spinner);
    assert_eq!(app.detail_preview(), Some(Preview::Picture));
    assert!(app.buffer_in_use(7));
    assert!(!app.buffer_in_use(8));
    let preloads: Vec<&str> = effects
        .iter()
        .filter_map(|e| match e {
            Effect::PreloadDetail { name, .. } => Some(name.as_str()),
            _ => None,
        })
        .collect();
    assert_eq!(preloads.len(), 2);
    assert!(preloads.contains(&"2.dng") && preloads.contains(&"4.dng"));
}

#[test]
fn a_decode_of_a_replaced_frame_is_not_shown() {
    let (mut app, _) = grid(5);
    app.update(Message::ThumbnailActivated("3.dng".to_owned()));
    app.update(Message::DetailClosed);
    app.update(ready("3.dng", 7));
    assert!(app.detail.live.is_none());
}

#[test]
fn a_failed_decode_is_reported_once() {
    let (mut app, _) = grid(5);
    app.update(Message::ThumbnailActivated("3.dng".to_owned()));
    let failure = || Message::DetailReady {
        name: "3.dng".to_owned(),
        preset: FilmPreset::Positive,
        result: Err("no file".to_owned()),
        cap: single(3.0),
        one_to_one: single(3.0),
    };
    let effects = app.update(failure());
    assert!(effects.iter().any(|e| matches!(
        e,
        Effect::ReportDetailFailure { name, reason } if name == "3.dng" && reason == "no file"
    )));
    let effects = app.update(failure());
    assert!(!effects.iter().any(|e| matches!(e, Effect::ReportDetailFailure { .. })));
}

#[test]
fn a_preloaded_neighbor_is_shown_at_once() {
    let mut app = viewing("3.dng");
    app.update(Message::DetailPreloaded {
        dir: "/r/a".to_owned(),
        name: "4.dng".to_owned(),
        preset: FilmPreset::Positive,
        result: Ok(picture(8)),
    });
    app.update(Message::Nav(MoveDir::Right));
    assert_eq!(app.selected.as_deref(), Some("4.dng"));
    assert_eq!(app.detail.live.unwrap().mono, picture(8));
}

#[test]
fn the_thumbnail_fades_over_the_picture() {
    let (mut app, _) = grid(5);
    app.update(Message::ThumbReady("3.dng".to_owned(), Some(33)));
    app.update(Message::ThumbnailActivated("3.dng".to_owned()));
    app.update(ready("3.dng", 7));
    assert_eq!(app.detail_preview(), Some(Preview::Crossfade { thumb: 33 }));
    assert!(app.fade_due());
    app.update(Message::DetailFadeTick(single(0.4)));
    assert_eq!(app.detail.thumb_opacity, single(0.4));
    app.update(Message::DetailFadeTick(single(0.0)));
    assert_eq!(app.detail_preview(), Some(Preview::Picture));
    assert!(!app.fade_due());
}

#[test]
fn adjusting_writes_nothing_until_it_is_committed() {
    let mut app = viewing("3.dng");
    let effects = app.update(Message::AdjustEdit {
        adjust: EditAdjust::Exposure(single(0.5)),
        moved: single(0.5),
    });
    assert!(saved(&effects).is_none());
    assert_eq!(app.detail.edit.exposure_ev, single(0.5));
    let effects = app.update(Message::EditKeyReleased);
    let manifest = saved(&effects).expect("the release writes the edit");
    assert_eq!(manifest.tone("3.dng").exposure_ev, single(0.5));
}

#[test]
fn sliders_are_saved_on_release() {
    let mut app = viewing("3.dng");
    // A key's step stops at the end of the slider.
    app.update(Message::AdjustEdit {
        adjust: EditAdjust::Exposure(single(0.5)),
        moved: single(4.2),
    });
    assert_eq!(app.detail.edit.exposure_ev, single(4.0));
    app.update(Message::CurveChanged(single(0.9), single(1.1), single(1.2)));
    let effects = app.update(Message::EditSave);
    let tone = saved(&effects).unwrap().tone("3.dng");
    assert_eq!(
        (tone.curve_contrast, tone.curve_rolloff, tone.curve_shadows),
        (single(0.9), single(1.1), single(1.2))
    );
}

#[test]
fn reset_gives_back_what_the_frame_opened_with() {
    let mut app = viewing("3.dng");
    let opened = app.detail.edit;
    app.update(Message::ExposureChanged(single(1.5)));
    app.update(Message::AdjustEdit { adjust: EditAdjust::RotateCcw, moved: single(0.0) });
    assert_ne!(app.detail.edit, opened);
    app.update(Message::ResetAll);
    assert_eq!(app.detail.edit, opened);
}

#[test]
fn four_quarter_turns_are_none() {
    let mut app = viewing("3.dng");
    for degrees in [90, 180, 270, 0] {
        app.update(Message::AdjustEdit { adjust: EditAdjust::RotateCcw, moved: single(0.0) });
        assert_eq!(app.editing_controls().unwrap().rotation_degrees, degrees);
    }
}

#[test]
fn leaving_a_frame_saves_it() {
    let (mut app, _) = library();
    app.update(Message::RollSelected("/r/a".to_owned()));
    app.update(Message::OpenSelected);
    app.update(Message::RollOpened(
        "/r/a".to_owned(),
        names(5),
        RollManifest::default(),
    ));
    app.update(Message::ThumbnailActivated("3.dng".to_owned()));
    app.update(ready("3.dng", 7));
    app.update(Message::ExposureChanged(single(1.5)));
    let effects = app.update(Message::DetailClosed);
    assert_eq!(saved(&effects).unwrap().tone("3.dng").exposure_ev, single(1.5));
    assert!(app.selected.is_none());
    assert_eq!(app.frame_selected.as_deref(), Some("3.dng"));
    // The next Escape leaves the roll, and the library keeps its place.
    app.update(Message::DetailClosed);
    assert!(app.active.is_none());
    assert!(matches!(
        &app.library_selection,
        Some(LibrarySelection::Roll(dir)) if dir == "/r/a"
    ));
}

#[test]
fn frames_open_with_their_stored_edits() {
    let mut app = viewing("3.dng");
    app.update(Message::ExposureChanged(single(1.5)));
    app.update(Message::DetailClosed);
    app.update(Message::ThumbnailActivated("3.dng".to_owned()));
    assert_eq!(app.detail.edit.exposure_ev, single(1.5));
    app.update(Message::DetailClosed);
    app.update(Message::ThumbnailActivated("4.dng".to_owned()));
    assert_eq!(app.detail.edit.exposure_ev, ToneEdit::identity().exposure_ev);
}

#[test]
fn crop_mode_moves_and_resizes_the_window() {
    let mut app = viewing("3.dng");
    app.update(Message::ToggleCropMode);
    assert!(app.detail.crop_mode);
    assert!(matches!(app.on_escape(), Message::ToggleCropMode));
    // A smaller window can be moved: ten pixels off the long edge.
    app.update(Message::AdjustEdit {
        adjust: EditAdjust::Exposure(single(-0.5)),
        moved: single(-0.5),
    });
    let crop = app.detail.edit.crop;
    assert_eq!((crop.cropped_width(400), crop.cropped_height(300)), (390, 293));
    app.update(Message::Nav(MoveDir::Right));
    assert_eq!(app.detail.edit.crop.left, crop.left + 5);
    app.update(Message::ResetCrop);
    assert_eq!(app.detail.edit.crop, CropMargins::default());
    app.update(Message::ToggleCropMode);
    assert!(!app.detail.crop_mode);
}

#[test]
fn copies_paste_the_source_tone_onto_the_selection() {
    let mut app = viewing("3.dng");
    app.update(Message::ExposureChanged(single(1.5)));
    app.update(Message::DetailClosed);
    app.update(Message::CopyEdits);
    assert_eq!(app.clipboard.unwrap().exposure_ev, single(1.5));
    app.update(Message::SelectAllFrames);
    let effects = app.update(Message::PasteEdits);
    let manifest = saved(&effects).unwrap();
    for name in names(5) {
        assert_eq!(manifest.tone(&name).exposure_ev, single(1.5));
    }
}

#[test]
fn a_focused_frame_outside_the_selection_is_no_paste_target() {
    let (mut app, _) = grid(3);
    app.update(Message::FrameSelected("1.dng".to_owned()));
    let tone = ToneEdit { exposure_ev: single(1.5), ..app.roll.tone("1.dng") };
    app.clipboard = Some(tone);
    // Focused, but not among the selected ones.
    app.frame_selected = Some("2.dng".to_owned());
    let untouched = app.roll.tone("2.dng");
    let effects = app.update(Message::PasteEdits);
    let manifest = saved(&effects).unwrap();
    assert_eq!(manifest.tone("1.dng"), tone);
    assert_eq!(manifest.tone("2.dng"), untouched);
    assert_eq!(manifest.tone("3.dng"), untouched);
    // With nothing selected the focused frame is the target.
    app.selected_frames.remove("1.dng");
    app.update(Message::PasteEdits);
    assert_eq!(app.roll.tone("2.dng"), tone);
    assert_eq!(app.roll.tone("3.dng"), untouched);
    // With nothing focused either there is no target.
    app.frame_selected = None;
    assert!(app.update(Message::PasteEdits).is_empty());
}

#[test]
fn editing_keys_need_an_open_frame() {
    let (mut app, _) = grid(3);
    assert!(app.update(Message::ToggleCropMode).is_empty());
    assert!(!app.detail.crop_mode);
    let adjust = EditAdjust::Exposure(single(0.5));
    assert!(app.update(Message::AdjustEdit { adjust, moved: single(0.5) }).is_empty());
    assert!(!app.editing_key_held);
    assert!(app.update(Message::EditKeyReleased).is_empty());
}

#[test]
fn a_shown_search_is_not_activated_again() {
    let (mut app, _) = library();
    let effects = app.update(Message::SearchActivate);
    assert!(matches!(effects.as_slice(), [Effect::FocusSearch]));
    app.update(Message::SearchInput("al".to_owned()));
    let version = app.search_version;
    assert!(app.update(Message::SearchActivate).is_empty());
    assert_eq!(app.search.as_deref(), Some("al"));
    assert_eq!(app.search_version, version);
}

#[test]
fn help_covers_the_window() {
    let mut app = viewing("3.dng");
    app.update(Message::ToggleHelp);
    assert!(app.help_visible);
    assert!(matches!(app.on_escape(), Message::ToggleHelp));
    let edit = app.detail.edit;
    app.update(Message::Nav(MoveDir::Right));
    app.update(Message::AdjustEdit {
        adjust: EditAdjust::Exposure(single(0.5)),
        moved: single(0.5),
    });
    assert_eq!(app.selected.as_deref(), Some("3.dng"));
    assert_eq!(app.detail.edit, edit);
    assert!(app.update(Message::PasteEdits).is_empty());
    assert!(app.update(Message::DetailClosed).is_empty());
    app.update(Message::ToggleHelp);
    assert!(!app.help_visible);
}

#[test]
fn only_the_last_typed_search_applies() {
    let (mut app, _) = library();
    app.update(Message::SearchActivate);
    assert_eq!(app.header_end().search, SearchControl::Field);
    let first = app.update(Message::SearchInput("al".to_owned()));
    let second = app.update(Message::SearchInput("ber".to_owned()));
    let serial = |effects: &[Effect]| {
        effects
            .iter()
            .find_map(|e| match e {
                Effect::SearchTimer { version, .. } => Some(*version),
                _ => None,
            })
            .unwrap()
    };
    app.update(Message::SearchCommitted("al".to_owned(), serial(&first)));
    assert_eq!(app.search_filter, None);
    app.update(Message::SearchCommitted("ber".to_owned(), serial(&second)));
    assert_eq!(app.search_filter.as_deref(), Some("ber"));
    assert!(!app.library_hint());
    let third = app.update(Message::SearchInput("zzz".to_owned()));
    app.update(Message::SearchCommitted("zzz".to_owned(), serial(&third)));
    assert!(app.library_hint());
    // Hiding the field drops what is still pending.
    let last = app.update(Message::SearchInput("al".to_owned()));
    app.update(Message::SearchClear);
    app.update(Message::SearchCommitted("al".to_owned(), serial(&last)));
    assert_eq!(app.search_filter, None);
    assert_eq!(app.header_end().search, SearchControl::Icon);
}

#[test]
fn an_added_roll_is_listed_and_opened() {
    let mut app = fresh();
    assert!(app
        .update(Message::AddRoll)
        .iter()
        .any(|e| matches!(e, Effect::OpenRollPicker)));
    let effects = app.update(Message::RollAdded("/r//c/./".to_owned(), FilmPreset::TriX));
    assert_eq!(persisted(&effects), Some(&vec!["/r//c/./".to_owned()]));
    assert!(effects.iter().any(|e| matches!(
        e,
        Effect::RecordPreset { dir, preset: FilmPreset::TriX } if dir == "/r/c"
    )));
    assert_eq!(app.active.as_deref(), Some("/r/c"));
    // Once the library knows it, it is opened but not listed again.
    app.update(Message::RollInfoLoaded(roll("/r/c", "Cairo", None)));
    app.update(Message::DetailClosed);
    let effects = app.update(Message::RollAdded("/r/c".to_owned(), FilmPreset::TriX));
    assert_eq!(persisted(&effects), None);
    assert_eq!(app.config.rolls.len(), 1);
    assert_eq!(app.active.as_deref(), Some("/r/c"));
}

#[test]
fn a_removed_roll_is_gone_and_nothing_else_happens() {
    let (mut app, _) = library();
    app.update(Message::RollSelected("/r/a".to_owned()));
    assert!(app.menu_state().remove_roll);
    let effects = app.update(Message::RemoveSelectedRoll);
    assert_eq!(persisted(&effects), Some(&vec!["/r/b".to_owned()]));
    assert_eq!(app.rolls.len(), 1);
    app.update(Message::RemoveRoll("/r/b".to_owned()));
    assert!(app.config.rolls.is_empty());
}

#[test]
fn an_open_roll_is_not_removed() {
    let (mut app, _) = grid(3);
    app.update(Message::RemoveRoll("/r/a".to_owned()));
    assert_eq!(app.rolls.len(), 2);
    assert_eq!(app.config.rolls.len(), 2);
}

#[test]
fn submitted_dates_stay_coherent() {
    let (mut app, _) = library();
    app.update(Message::RollSelected("/r/a".to_owned()));
    app.update(Message::RollDateDraftChange(RollDateField::End, "2024-05-01".to_owned()));
    // An end before the start is not recorded, and the field shows what is.
    let effects = app.update(Message::RollDateDraftSubmit(RollDateField::End));
    assert!(!effects.iter().any(|e| matches!(e, Effect::RecordDates { .. })));
    assert_eq!(app.roll_date_drafts.get(RollDateField::End), "");
    app.update(Message::RollDateDraftChange(RollDateField::End, "2024-05-31".to_owned()));
    let effects = app.update(Message::RollDateDraftSubmit(RollDateField::End));
    assert!(effects.iter().any(|e| matches!(
        e,
        Effect::RecordDates { start: Some(s), end: Some(e), .. }
            if s == "2024-05-09" && e == "2024-05-31"
    )));
    // A text that is no date is dropped.
    app.update(Message::RollDateDraftChange(RollDateField::Start, "May".to_owned()));
    app.update(Message::RollDateDraftSubmit(RollDateField::Start));
    assert_eq!(app.roll_date_drafts.get(RollDateField::Start), "2024-05-09");
    // An emptied field clears its date.
    app.update(Message::RollDateDraftChange(RollDateField::End, String::new()));
    app.update(Message::RollDateDraftSubmit(RollDateField::End));
    let alps = app.rolls.iter().find(|r| r.dir == "/r/a").unwrap();
    assert_eq!(alps.end_date, None);
}

#[test]
fn a_submitted_name_labels_the_roll() {
    let (mut app, _) = library();
    app.update(Message::RollSelected("/r/a".to_owned()));
    app.update(Message::RollNameDraftChange("  Engadin ".to_owned()));
    let effects = app.update(Message::RollNameDraftSubmit);
    assert!(effects.iter().any(|e| matches!(
        e,
        Effect::RecordName { name: Some(n), .. } if n == "Engadin"
    )));
    assert!(app.rolls.iter().any(|r| r.name == "Engadin"));
    // An empty name goes back to the directory's.
    app.update(Message::RollNameDraftChange("  ".to_owned()));
    app.update(Message::RollNameDraftSubmit);
    assert!(app.rolls.iter().any(|r| r.name == "a"));
}

#[test]
fn select_all_exports_every_frame_once() {
    let (mut app, _) = grid(3);
    // The first frame is highlighted, and would be exported alone.
    assert_eq!(app.export_targets(), vec!["1.dng".to_owned()]);
    app.update(Message::SelectAllFrames);
    assert_eq!(app.export_targets(), names(3));
    assert!(app.menu_state().export);
    let effects = app.update(Message::ExportRequested);
    assert!(effects.iter().any(|e| matches!(e, Effect::OpenExportDialog)));
    // A second request waits for the dialog.
    assert!(app.update(Message::ExportRequested).is_empty());
    let options = ExportOptions::for_preset(ExportPreset::Cloud);
    let effects = app.update(Message::ExportChosen(Some(("/out".to_owned(), options))));
    let frames = effects
        .iter()
        .find_map(|e| match e {
            Effect::BeginExport { frames, dest, .. } if dest == "/out" => Some(frames),
            _ => None,
        })
        .unwrap();
    let listed: Vec<(&str, usize)> = frames.iter().map(|f| (f.name.as_str(), f.index)).collect();
    assert_eq!(listed, vec![("1.dng", 0), ("2.dng", 1), ("3.dng", 2)]);
    assert_eq!(app.export_progress, Some((0, 3)));
    // While it runs there is no other.
    assert!(app.update(Message::ExportRequested).is_empty());
    app.update(Message::ExportProgress { done: 2, total: 3 });
    assert_eq!(app.header_end().progress, Some((2, 3)));
    let effects = app.update(Message::ExportDone {
        ok: 3,
        skipped: 0,
        failed: 0,
        dest: "/out".to_owned(),
        start_date: Some("2024-05-09".to_owned()),
    });
    assert!(effects.iter().any(|e| matches!(e, Effect::ToastDone { count: 3, .. })));
    assert_eq!(app.export_progress, None);
}

#[test]
fn exports_tell_what_was_left_out() {
    let done = |skipped: usize, failed: usize| {
        let (mut app, _) = grid(3);
        app.update(Message::ExportDone {
            ok: 1,
            skipped,
            failed,
            dest: "/out".to_owned(),
            start_date: None,
        })
    };
    assert!(done(2, 0)
        .iter()
        .any(|e| matches!(e, Effect::ToastSkipped { skipped: 2, .. })));
    assert!(done(0, 2)
        .iter()
        .any(|e| matches!(e, Effect::ToastFailed { failed: 2, .. })));
}

#[test]
fn a_cancelled_export_can_be_asked_for_again() {
    let (mut app, _) = grid(3);
    app.update(Message::SelectAllFrames);
    app.update(Message::ExportRequested);
    assert!(app.update(Message::ExportChosen(None)).is_empty());
    assert!(!app.update(Message::ExportRequested).is_empty());
}

#[test]
fn arrows_move_over_the_grid() {
    let (mut app, _) = grid(5);
    app.update(Message::GridViewport(2));
    app.update(Message::FrameSelected("1.dng".to_owned()));
    let effects = app.update(Message::Nav(MoveDir::Down));
    assert_eq!(app.frame_selected.as_deref(), Some("3.dng"));
    assert!(effects.iter().any(|e| matches!(
        e,
        Effect::ScrollTo { grid: GridId::Frames, index: 2, len: 5, cols: 2 }
    )));
    app.update(Message::OpenSelected);
    assert_eq!(app.selected.as_deref(), Some("3.dng"));
}

#[test]
fn columns_come_from_the_window_until_the_grid_reports_them() {
    let (mut app, _) = grid(5);
    app.set_grid_cols(0);
    assert_eq!(app.nav_cols(), 1);
    app.set_grid_cols(4);
    assert_eq!(app.nav_cols(), 4);
    app.update(Message::GridViewport(2));
    assert_eq!(app.nav_cols(), 2);
}

#[test]
fn held_keys_select_many_frames() {
    let (mut app, _) = grid(5);
    app.update(Message::FrameSelected("1.dng".to_owned()));
    app.update(Message::ModifiersChanged(Modifiers { shift: true, ..NO_KEYS }));
    app.update(Message::FrameSelected("3.dng".to_owned()));
    assert_eq!(app.selected_frames.to_list(), names(3));
    app.update(Message::ModifiersChanged(Modifiers { control: true, ..NO_KEYS }));
    app.update(Message::FrameSelected("2.dng".to_owned()));
    assert_eq!(
        app.selected_frames.to_list(),
        vec!["1.dng".to_owned(), "3.dng".to_owned()]
    );
    assert_eq!(app.tile_marks("3.dng"), (true, false));
}

#[test]
fn changing_the_film_decodes_the_frame_again() {
    let mut app = viewing("3.dng");
    let effects = app.update(Message::RollPresetChanged("/r/a".to_owned(), FilmPreset::TriX));
    assert!(effects.iter().any(|e| matches!(
        e,
        Effect::RecordPreset { preset: FilmPreset::TriX, .. }
    )));
    assert_eq!(app.roll.preset(), FilmPreset::TriX);
    assert!(app.detail.live.is_none());
    assert!(effects.iter().any(|e| matches!(
        e,
        Effect::DecodeDetail { preset: FilmPreset::TriX, .. }
    )));
    // The old overview is not kept.
    assert_eq!(app.detail_cache.len(), 0);
    assert!(!app.buffer_in_use(7));
}

#[test]
fn selecting_a_calibration_frame_measures_the_roll() {
    let mut app = viewing("3.dng");
    app.update(Message::RollPresetChanged("/r/a".to_owned(), FilmPreset::TriX));
    let effects = app.update(Message::RollBaseModeChanged(
        "/r/a".to_owned(),
        BaseMode::AutoSelectedFrame,
    ));
    assert!(effects.iter().any(|e| matches!(
        e,
        Effect::RecordBaseMode { mode: BaseMode::AutoSelectedFrame, .. }
    )));
    let mut on_disk = RollManifest::default();
    on_disk.set_preset(FilmPreset::TriX);
    on_disk.set_base_mode(BaseMode::AutoSelectedFrame);
    on_disk.set_calibration_frame("1.dng");
    app.update(Message::CalibrationBaseMeasured(
        "/r/a".to_owned(),
        "1.dng".to_owned(),
        Some(single(0.6)),
        on_disk,
    ));
    assert_eq!(app.roll.base_config().calibrated, Some(single(0.6)));
    assert_eq!(app.tile_marks("1.dng"), (false, true));
}

#[test]
fn a_frame_without_clear_film_leaves_the_calibration() {
    let (mut app, _) = library();
    app.update(Message::RollActivated("/r/a".to_owned()));
    let mut manifest = RollManifest::default();
    manifest.set_base_mode(BaseMode::AutoSelectedFrame);
    manifest.set_calibration_frame("1.dng");
    manifest.set_calibrated_base(single(0.6));
    app.update(Message::RollOpened("/r/a".to_owned(), names(3), manifest));
    app.update(Message::ThumbnailActivated("3.dng".to_owned()));
    app.update(ready("3.dng", 7));
    let grey = vec![single(0.01); 100];
    assert!(app.update(Message::CalibrateBaseFromFrame(grey)).is_empty());
    assert_eq!(app.roll.calibration_frame(), Some("1.dng"));
    assert_eq!(app.roll.calibrated_base(), Some(single(0.6)));
    let clear = vec![single(0.7); 100];
    assert!(!app.update(Message::CalibrateBaseFromFrame(clear)).is_empty());
    assert_eq!(app.roll.calibration_frame(), Some("3.dng"));
    assert_eq!(app.roll.calibrated_base(), Some(single(0.7)));
}

#[test]
fn a_measurement_without_clear_film_keeps_the_base() {
    let (mut app, _) = library();
    app.update(Message::RollActivated("/r/a".to_owned()));
    let calibrated = |frame: &str| {
        let mut manifest = RollManifest::default();
        manifest.set_base_mode(BaseMode::AutoSelectedFrame);
        manifest.set_calibration_frame(frame);
        manifest.set_calibrated_base(single(0.6));
        manifest
    };
    app.update(Message::RollOpened("/r/a".to_owned(), names(3), calibrated("1.dng")));
    // The frame is not cached, so it is measured.
    app.update(Message::FrameSelected("3.dng".to_owned()));
    let effects = app.update(Message::CalibrateBaseFromFrame(Vec::new()));
    assert_eq!(saved(&effects), Some(&calibrated("3.dng")));
    assert!(effects.iter().any(|e| matches!(
        e,
        Effect::MeasureFrame { name, .. } if name == "3.dng"
    )));
    let effects = app.update(Message::CalibrationBaseMeasured(
        "/r/a".to_owned(),
        "3.dng".to_owned(),
        None,
        calibrated("3.dng"),
    ));
    assert_eq!(saved(&effects), Some(&calibrated("3.dng")));
    assert_eq!(app.roll.calibrated_base(), Some(single(0.6)));
}

#[test]
fn frame_details_are_read_when_the_drawer_shows_them() {
    let (mut app, _) = grid(3);
    app.update(Message::FrameSelected("2.dng".to_owned()));
    let effects = app.update(Message::ToggleContext);
    assert!(effects.iter().any(|e| matches!(
        e,
        Effect::LoadFrameInfo { name, .. } if name == "2.dng"
    )));
    assert_eq!(app.context_drawer(), Some(DrawerPanel::FrameInfo(1)));
    let meta = FrameMeta {
        width: Some("6000".to_owned()),
        height: Some("4000".to_owned()),
        make: None,
        model: Some("K-1".to_owned()),
        iso: None,
        exposure: None,
        aperture: None,
        focal: None,
        lens: None,
        date: None,
    };
    app.update(Message::FrameInfoReady("2.dng".to_owned(), Some(meta)));
    assert!(app.tiles[1].meta.is_some());
    assert!(!app.frame_info_rows("2.dng").is_empty());
    app.update(Message::FrameInfoReady("3.dng".to_owned(), None));
    assert!(app.tiles[2].meta_failed);
    // The drawer is remembered per view.
    app.update(Message::DetailClosed);
    assert_eq!(app.context_drawer(), None);
    app.update(Message::ToggleContextPage(ContextPage::About));
    assert_eq!(app.context_drawer(), Some(DrawerPanel::About));
}

#[test]
fn a_frame_is_stamped_by_its_place_in_the_roll() {
    let (mut app, _) = library();
    app.update(Message::RollActivated("/r/a".to_owned()));
    let mut manifest = RollManifest::default();
    manifest.set_dates(Some("2024-05-09".to_owned()), None);
    app.update(Message::RollOpened("/r/a".to_owned(), names(3), manifest));
    assert_eq!(app.frame_stamp("3.dng").as_deref(), Some("2024:05:09 00:00:02"));
    assert_eq!(app.frame_stamp("9.dng"), None);
}

#[test]
fn the_preview_zooms_and_pans() {
    let mut app = viewing("3.dng");
    app.update(Message::DetailAreaResized(point(800.0, 600.0)));
    assert_eq!(app.detail.area, Some(point(800.0, 600.0)));
    app.update(Message::DetailZoom {
        zoom: single(2.0),
        pan: point(3.0, 4.0),
        one_to_one: single(3.0),
    });
    assert_eq!((app.detail.zoom, app.detail.pan), (single(2.0), point(3.0, 4.0)));
    app.update(Message::DetailPanPress);
    app.update(Message::DetailPanMove { cursor: point(10.0, 10.0), pan: point(3.0, 4.0) });
    app.update(Message::DetailPanMove { cursor: point(12.0, 10.0), pan: point(5.0, 4.0) });
    assert_eq!(app.detail.pan, point(5.0, 4.0));
    app.update(Message::DetailPanRelease);
    app.update(Message::DetailPanMove { cursor: point(90.0, 10.0), pan: point(99.0, 4.0) });
    assert_eq!(app.detail.pan, point(5.0, 4.0));
    app.reclamp_detail_zoom(single(1.5));
    assert_eq!(app.detail.zoom, single(1.5));
}

#[test]
fn zooming_in_far_asks_for_full_size_once() {
    let (mut app, _) = grid(5);
    app.update(Message::ThumbnailActivated("3.dng".to_owned()));
    app.update(Message::DetailReady {
        name: "3.dng".to_owned(),
        preset: FilmPreset::Positive,
        result: Ok(DetailMono { src_long_edge: 6000, ..picture(7) }),
        cap: single(3.0),
        one_to_one: single(3.0),
    });
    let zoom = || Message::DetailZoom { zoom: single(2.6), pan: point(0.0, 0.0), one_to_one: single(3.0) };
    let effects = app.update(zoom());
    assert!(effects.iter().any(|e| matches!(
        e,
        Effect::DecodeDetail { cap: 8192, .. }
    )));
    let effects = app.update(zoom());
    assert!(!effects.iter().any(|e| matches!(e, Effect::DecodeDetail { .. })));
}

#[test]
fn keys_ask_for_what_is_bound_to_them() {
    let press = |key: &str, modifiers: Modifiers| {
        key_action(KeyEvent::Pressed { character: key.to_owned(), modifiers, repeat: false })
    };
    assert!(matches!(
        press("=", NO_KEYS),
        Some(KeyAction::Adjust(EditAdjust::Exposure(step))) if step == single(0.5)
    ));
    assert!(matches!(press("r", NO_KEYS), Some(KeyAction::Adjust(EditAdjust::RotateCcw))));
    assert!(matches!(
        press("h", NO_KEYS),
        Some(KeyAction::Send(Message::Nav(MoveDir::Left)))
    ));
    assert!(matches!(
        key_action(KeyEvent::NamedPressed(NamedKey::ArrowLeft)),
        Some(KeyAction::Send(Message::Nav(MoveDir::Left)))
    ));
    let control = Modifiers { control: true, ..NO_KEYS };
    assert!(matches!(
        press("a", control),
        Some(KeyAction::Send(Message::SelectAllFrames))
    ));
    assert!(press("h", control).is_none());
    assert!(matches!(
        key_action(KeyEvent::Released { character: "=".to_owned(), modifiers: NO_KEYS }),
        Some(KeyAction::Send(Message::EditKeyReleased))
    ));
    // A held key toggles crop mode once.
    assert!(key_action(KeyEvent::Pressed {
        character: "c".to_owned(),
        modifiers: NO_KEYS,
        repeat: true,
    })
    .is_none());
    assert!(matches!(MenuAction::Quit.message(Vec::new()), Message::Quit));
}

#[test]
fn a_drag_that_leaves_the_preview_ends() {
    let area = DetailArea::new().on_press().on_release().on_move().on_scroll();
    let mut state = AreaState::default();
    let r = area.update(&mut state, PointerEvent::Pressed, true);
    assert_eq!(r.signal, Some(AreaSignal::Press));
    area.update(&mut state, PointerEvent::Moved, true);
    let r = area.update(&mut state, PointerEvent::Moved, false);
    assert_eq!(r.signal, Some(AreaSignal::Release));
    let r = area.update(&mut state, PointerEvent::Moved, false);
    assert_eq!(r.signal, None);
}

#[test]
fn cards_show_their_dates() {
    let dated = roll("/r/a", "Alps", Some("2024-05-09"));
    assert!(matches!(card_dates(&MONTHS, &dated), CardDates::Formatted(s) if s == "May 9 2024"));
    let undated = roll("/r/b", "Berlin", None);
    assert!(matches!(card_dates(&MONTHS, &undated), CardDates::Undated));
    let odd = roll("/r/c", "Cairo", Some("spring"));
    assert!(matches!(
        card_dates(&MONTHS, &odd),
        CardDates::Raw { start, end: None } if start == "spring"
    ));
}

#[test]
fn the_strategy_is_chosen_only_for_film() {
    let mut one = roll("/r/a", "Alps", None);
    assert_eq!(roll_choices(&one).base_mode, None);
    one.preset = FilmPreset::TriX;
    one.base_mode = BaseMode::AutoPerFrame;
    let choices = roll_choices(&one);
    assert_eq!(choices.preset, FilmPreset::TriX.index());
    assert_eq!(choices.base_mode, Some(BaseMode::AutoPerFrame.index()));
    assert_eq!(preset_option(FilmPreset::TriX.index()), Some("Kodak Tri-X 400"));
    assert_eq!(preset_option(FilmPreset::Positive.index()), None);
}

#[test]
fn a_changed_configuration_is_taken_over() {
    let mut app = fresh();
    app.update(Message::UpdateConfig(Config { rolls: vec!["/r/x".to_owned()] }));
    assert_eq!(app.config.rolls, vec!["/r/x".to_owned()]);
    assert!(app
        .update(Message::Quit)
        .iter()
        .any(|e| matches!(e, Effect::CloseWindow)));
    assert!(app
        .update(Message::LaunchUrl("https://example.org".to_owned()))
        .iter()
        .any(|e| matches!(e, Effect::LaunchUrl(_))));
}

#[test]
fn the_copied_tone_is_the_identity_of_an_untouched_frame() {
    let (mut app, _) = grid(2);
    app.update(Message::FrameSelected("1.dng".to_owned()));
    app.update(Message::CopyEdits);
    assert_eq!(app.clipboard, Some(ToneEdit::identity()));
}

#[test]
fn a_preload_leaves_the_view_alone() {
    let mut app = viewing("3.dng");
    let live = app.detail.live;
    let effects = app.update(Message::DetailPreloaded {
        dir: "/r/a".to_owned(),
        name: "2.dng".to_owned(),
        preset: FilmPreset::Positive,
        result: Ok(picture(12)),
    });
    assert!(effects.is_empty());
    assert_eq!(app.detail.live, live);
    assert!(app.buffer_in_use(12));
}

#[test]
fn crop_mode_mutes_the_tone_keys() {
    let mut app = viewing("3.dng");
    app.update(Message::ToggleCropMode);
    let edit = app.detail.edit;
    app.update(Message::AdjustEdit {
        adjust: EditAdjust::Contrast(single(0.2)),
        moved: single(1.2),
    });
    assert_eq!(app.detail.edit, edit);
    // Nothing was held, so the release commits nothing.
    assert!(app.update(Message::EditKeyReleased).is_empty());
}

#[test]
fn a_release_after_the_view_closed_does_nothing() {
    let mut app = viewing("3.dng");
    app.update(Message::AdjustEdit {
        adjust: EditAdjust::Exposure(single(0.5)),
        moved: single(0.5),
    });
    app.update(Message::DetailClosed);
    assert!(app.update(Message::EditKeyReleased).is_empty());
}

#[test]
fn a_measurement_that_nobody_asks_for_is_dropped() {
    let mut app = viewing("3.dng");
    let effects = app.update(Message::CalibrationBaseMeasured(
        "/r/a".to_owned(),
        "1.dng".to_owned(),
        Some(single(0.6)),
        RollManifest::default(),
    ));
    assert!(effects.is_empty());
    assert_eq!(app.roll.calibrated_base(), None);
}

#[test]
fn a_closed_roll_keeps_its_overviews() {
    let mut app = viewing("3.dng");
    app.update(Message::DetailClosed);
    app.update(Message::DetailClosed);
    assert!(app.active.is_none());
    assert!(app.buffer_in_use(7));
}

#[test]
fn escape_keeps_the_drawer_of_each_view() {
    let mut app = viewing("3.dng");
    app.update(Message::ToggleContext);
    assert_eq!(app.context_drawer(), Some(DrawerPanel::Editing));
    app.update(Message::DetailClosed);
    assert_eq!(app.context_drawer(), None);
    app.update(Message::ThumbnailActivated("3.dng".to_owned()));
    assert_eq!(app.context_drawer(), Some(DrawerPanel::Editing));
}

#[test]
fn leaving_the_selected_frame_strategy_drops_the_calibration() {
    let (mut app, _) = library();
    app.update(Message::RollActivated("/r/a".to_owned()));
    let mut manifest = RollManifest::default();
    manifest.set_base_mode(BaseMode::AutoSelectedFrame);
    manifest.set_calibration_frame("1.dng");
    manifest.set_calibrated_base(single(0.6));
    app.update(Message::RollOpened("/r/a".to_owned(), names(2), manifest));
    assert_eq!(app.roll.calibrated_base(), Some(single(0.6)));
    let effects = app.update(Message::RollBaseModeChanged(
        "/r/a".to_owned(),
        BaseMode::AutoPerFrame,
    ));
    assert!(effects.iter().any(|e| matches!(e, Effect::DropCalibration { .. })));
    assert_eq!(app.roll.calibrated_base(), None);
    assert_eq!(app.roll.calibration_frame(), None);
    assert_eq!(app.roll.base_mode(), BaseMode::AutoPerFrame);
}
