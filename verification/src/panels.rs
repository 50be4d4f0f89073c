//! What the header, the panels and the cards show for a state.

use vstd::prelude::*;
use crate::calibration;
use crate::drawer::ContextPage;
use crate::edit_manifest::CropMargins;
use crate::film::{BaseMode, FilmPreset, FILM_CHOICES};
use crate::library;
use crate::library::{LibraryCell, LibrarySelection, Roll, SelectionModel, Thumb};
use crate::single::Single;
use crate::state;
use crate::state::{AppModel, Model};
use crate::text;

verus! {

/// Which entries of the menu bar can be used. The others always can.
#[derive(Clone, Copy, Debug, PartialEq, Eq, Structural)]
pub struct MenuState {
    pub remove_roll: bool,
    pub export: bool,
    pub copy_edits: bool,
    pub paste_edits: bool,
    pub calibrate: bool,
    pub details: bool,
    pub crop_mode: bool,
}

/// The search control of the header.
#[derive(Clone, Copy, Debug, PartialEq, Eq, Structural)]
pub enum SearchControl {
    /// Inside a roll there is none.
    Absent,
    /// An icon that shows the field.
    Icon,
    /// The field with its text.
    Field,
}

/// The end of the header: the search control, whether a decode for the detail
/// view runs, and the export's progress.
#[derive(Clone, Copy, Debug, PartialEq, Eq)]
pub struct HeaderEnd {
    pub search: SearchControl,
    pub spinner: bool,
    pub progress: Option<(usize, usize)>,
}

/// The panel in the context drawer: rolls and frames by their places.
#[derive(Clone, Copy, Debug, PartialEq, Eq, Structural)]
pub enum DrawerPanel {
    About,
    Editing,
    RollInfo(usize),
    FrameInfo(usize),
}

/// What stands in for the detail view's picture.
#[derive(Clone, Copy, Debug, PartialEq, Eq, Structural)]
pub enum Preview {
    /// The picture, and over it a fading thumbnail.
    Crossfade { thumb: u64 },
    Picture,
    /// No picture yet: the frame's thumbnail, or how far it is.
    Waiting(Thumb),
}

/// The controls of the editing panel.
#[derive(Clone, Copy, Debug, PartialEq, Eq, Structural)]
pub struct EditingControls {
    pub exposure_ev: Single,
    pub curve_contrast: Single,
    pub curve_rolloff: Single,
    pub curve_shadows: Single,
    pub crop: CropMargins,
    pub rotation_degrees: u32,
}

/// The choices of the roll-info panel: the film preset's place in its list,
/// and the strategy's place where the film is inverted.
#[derive(Clone, Copy, Debug, PartialEq, Eq, Structural)]
pub struct RollChoices {
    pub preset: usize,
    pub base_mode: Option<usize>,
}

/// The dates on a roll's card.
#[derive(Debug)]
pub enum CardDates {
    /// The roll has no start date.
    Undated,
    Formatted(String),
    /// Dates that are none, as they are recorded.
    Raw { start: String, end: Option<String> },
}

impl Model {
    /// Which entries of the menu bar can be used.
    pub open spec fn menu(self) -> MenuState {
        let focused = self.frame_selected is Some || self.selected is Some;
        MenuState {
            remove_roll: self.active is None && self.roll_selected(),
            export: self.export_progress is None && self.has_export_targets(),
            copy_edits: focused,
            paste_edits: focused && self.clipboard is Some,
            calibrate: self.active is Some && self.roll.strategy() == BaseMode::AutoSelectedFrame,
            details: self.selected is Some || (self.active is Some && self.frame_selected is Some)
                || (self.active is None && self.roll_selected()),
            crop_mode: self.selected is Some,
        }
    }

    /// The end of the header.
    pub open spec fn header_end(self) -> HeaderEnd {
        HeaderEnd {
            search: if self.active is Some {
                SearchControl::Absent
            } else if self.search is Some {
                SearchControl::Field
            } else {
                SearchControl::Icon
            },
            spinner: self.selected is Some && self.detail_inflight is Some,
            progress: self.export_progress,
        }
    }

    /// The panel in the context drawer, with the place of what it is about; a
    /// panel with nothing to show is left out.
    pub open spec fn drawer_panel(self) -> Option<(ContextPage, int)> {
        if !self.drawer.show {
            None
        } else {
            match self.drawer.page {
                ContextPage::About => Some((ContextPage::About, 0)),
                ContextPage::Editing => if self.selected is Some {
                    Some((ContextPage::Editing, 0))
                } else {
                    None
                },
                ContextPage::RollInfo => match self.library_selection {
                    Some(SelectionModel::Roll(dir)) if self.active is None => match self.roll_at(
                        dir,
                    ) {
                        Some(k) => Some((ContextPage::RollInfo, k)),
                        None => None,
                    },
                    _ => None,
                },
                ContextPage::FrameInfo => match self.frame_selected {
                    Some(n) if self.selected is None && self.active is Some => match self.tile_at(
                        n,
                    ) {
                        Some(k) => Some((ContextPage::FrameInfo, k)),
                        None => None,
                    },
                    _ => None,
                },
            }
        }
    }

    /// Whether the library says that nothing matches: there are rolls, and the
    /// search leaves none of them.
    pub open spec fn nothing_matches(self) -> bool {
        self.rolls.len() > 0 && library::grid_places(
            self.rolls,
            state::or_empty(self.search_filter),
            self.month_aliases,
        ).len() == 0
    }

    /// What the detail view shows; nothing without an open frame on the grid.
    pub open spec fn preview(self) -> Option<Preview> {
        match self.selected {
            Some(n) => match self.tile_at(n) {
                Some(k) => Some(
                    match (self.detail.live, self.detail.thumb) {
                        (Some(_), Some(thumb)) if (Single { bits: 0 }).lt(
                            self.detail.thumb_opacity,
                        ) => Preview::Crossfade { thumb },
                        (Some(_), _) => Preview::Picture,
                        (None, _) => Preview::Waiting(self.tiles[k].thumb),
                    },
                ),
                None => None,
            },
            None => None,
        }
    }

    /// Whether the crossfade is to be driven on.
    pub open spec fn fade_due(self) -> bool {
        self.selected is Some && self.detail.live is Some && self.detail.thumb is Some && (
        Single { bits: 0 }).lt(self.detail.thumb_opacity)
    }

    /// The controls of the editing panel; none while the picture is decoded.
    pub open spec fn editing_controls(self) -> Option<EditingControls> {
        let edit = self.detail.edit;
        if self.detail.live is None {
            None
        } else {
            Some(
                EditingControls {
                    exposure_ev: edit.exposure_ev,
                    curve_contrast: edit.curve_contrast,
                    curve_rolloff: edit.curve_rolloff,
                    curve_shadows: edit.curve_shadows,
                    crop: edit.crop,
                    rotation_degrees: (edit.rotation * 90) as u32,
                },
            )
        }
    }
}

impl DrawerPanel {
    /// The page of a panel and the place of what it is about.
    pub open spec fn shows(self) -> (ContextPage, int) {
        match self {
            DrawerPanel::About => (ContextPage::About, 0),
            DrawerPanel::Editing => (ContextPage::Editing, 0),
            DrawerPanel::RollInfo(k) => (ContextPage::RollInfo, k as int),
            DrawerPanel::FrameInfo(k) => (ContextPage::FrameInfo, k as int),
        }
    }
}

/// What an optional panel shows.
pub open spec fn panel_of(o: Option<DrawerPanel>) -> Option<(ContextPage, int)> {
    match o {
        Some(panel) => Some(panel.shows()),
        None => None,
    }
}

impl AppModel {
    /// Which entries of the menu bar can be used.
    pub fn menu_state(&self) -> (r: MenuState)
        ensures
            r == self@.menu(),
    {
        let focused: bool = self.frame_selected.is_some() || self.selected.is_some();
        MenuState {
            remove_roll: self.active.is_none() && self.roll_selected(),
            export: self.export_progress.is_none() && self.has_export_targets(),
            copy_edits: focused,
            paste_edits: focused && self.clipboard.is_some(),
            calibrate: self.active.is_some() && self.roll.base_mode()
                == BaseMode::AutoSelectedFrame,
            details: self.selected.is_some() || (self.active.is_some()
                && self.frame_selected.is_some()) || (self.active.is_none()
                && self.roll_selected()),
            crop_mode: self.selected.is_some(),
        }
    }

    /// The end of the header.
    pub fn header_end(&self) -> (r: HeaderEnd)
        ensures
            r == self@.header_end(),
    {
        let search: SearchControl = if self.active.is_some() {
            SearchControl::Absent
        } else if self.search.is_some() {
            SearchControl::Field
        } else {
            SearchControl::Icon
        };
        HeaderEnd {
            search,
            spinner: self.selected.is_some() && self.detail_inflight.is_some(),
            progress: self.export_progress,
        }
    }

    /// The panel in the context drawer.
    pub fn context_drawer(&self) -> (r: Option<DrawerPanel>)
        ensures
            panel_of(r) == self@.drawer_panel(),
    {
        if !self.drawer.show {
            return None;
        }
        match self.drawer.page {
            ContextPage::About => Some(DrawerPanel::About),
            ContextPage::Editing => if self.selected.is_some() {
                Some(DrawerPanel::Editing)
            } else {
                None
            },
            ContextPage::RollInfo => {
                if self.active.is_some() {
                    return None;
                }
                match &self.library_selection {
                    Some(LibrarySelection::Roll(dir)) => match state::find_roll(
                        self.rolls.as_slice(),
                        dir.as_str(),
                    ) {
                        Some(k) => Some(DrawerPanel::RollInfo(k)),
                        None => None,
                    },
                    _ => None,
                }
            },
            ContextPage::FrameInfo => {
                if self.selected.is_some() || self.active.is_none() {
                    return None;
                }
                match &self.frame_selected {
                    Some(name) => match state::find_tile(self.tiles.as_slice(), name.as_str()) {
                        Some(k) => Some(DrawerPanel::FrameInfo(k)),
                        None => None,
                    },
                    None => None,
                }
            },
        }
    }

    /// Whether the library says that nothing matches the search.
    pub fn library_hint(&self) -> (r: bool)
        ensures
            r == self@.nothing_matches(),
    {
        let query: String = state::text_or_empty(text::as_slice(&self.search_filter));
        let cells: Vec<LibraryCell<'_>> = library::library_cells(
            self.rolls.as_slice(),
            query.as_str(),
            &self.month_aliases,
        );
        assert(self@.rolls.len() == self.rolls@.len());
        let lead: usize = if library::query_is_blank(query.as_str()) {
            1
        } else {
            0
        };
        self.rolls.len() > 0 && cells.len() == lead
    }

    /// What the detail view shows.
    pub fn detail_preview(&self) -> (r: Option<Preview>)
        ensures
            r == self@.preview(),
    {
        let name: &String = match &self.selected {
            Some(name) => name,
            None => {
                return None;
            },
        };
        let k: usize = match state::find_tile(self.tiles.as_slice(), name.as_str()) {
            Some(k) => k,
            None => {
                return None;
            },
        };
        assert(self@.tiles[k as int] == self.tiles@[k as int].model());
        if self.detail.live.is_none() {
            return Some(Preview::Waiting(self.tiles[k].thumb));
        }
        match self.detail.thumb {
            Some(thumb) => if (Single { bits: 0 }).less(self.detail.thumb_opacity) {
                Some(Preview::Crossfade { thumb })
            } else {
                Some(Preview::Picture)
            },
            None => Some(Preview::Picture),
        }
    }

    /// Whether the crossfade is to be driven on.
    pub fn fade_due(&self) -> (r: bool)
        ensures
            r == self@.fade_due(),
    {
        self.selected.is_some() && self.detail.live.is_some() && self.detail.thumb.is_some() && (
        Single { bits: 0 }).less(self.detail.thumb_opacity)
    }

    /// The controls of the editing panel.
    pub fn editing_controls(&self) -> (r: Option<EditingControls>)
        ensures
            r == self@.editing_controls(),
    {
        if self.detail.live.is_none() {
            return None;
        }
        let rotation_degrees: u32 = self.detail.edit.rotation as u32 * 90;
        Some(
            EditingControls {
                exposure_ev: self.detail.edit.exposure_ev,
                curve_contrast: self.detail.edit.curve_contrast,
                curve_rolloff: self.detail.edit.curve_rolloff,
                curve_shadows: self.detail.edit.curve_shadows,
                crop: self.detail.edit.crop,
                rotation_degrees,
            },
        )
    }

    /// Whether a frame of the open roll is ringed as selected, and whether it
    /// carries the calibration dot.
    pub fn tile_marks(&self, name: &str) -> (r: (bool, bool))
        ensures
            r.0 == self@.selected_frames.contains(name@),
            r.1 == (self@.roll.strategy() == BaseMode::AutoSelectedFrame
                && self@.roll.calibration_frame == Some(name@)),
    {
        (
            self.selected_frames.contains(name),
            calibration::is_calibration_frame(
                self.roll.base_mode(),
                self.roll.calibration_frame(),
                name,
            ),
        )
    }
}

/// The choices that the roll-info panel shows for a roll.
pub fn roll_choices(roll: &Roll) -> (r: RollChoices)
    ensures
        r.preset == roll.preset.position(),
        r.base_mode == (if roll.preset == FilmPreset::Positive {
            None
        } else {
            Some(roll.base_mode.position() as usize)
        }),
{
    let base_mode: Option<usize> = if roll.preset.stock().is_some() {
        Some(roll.base_mode.index())
    } else {
        None
    };
    RollChoices { preset: roll.preset.index(), base_mode }
}

/// The film that a place in the preset list stands for: its stock's name, or
/// none for no inversion.
pub fn preset_option(index: usize) -> (r: Option<&'static str>)
    requires
        index < 10,
    ensures
        text::slice_of(r) == (match FILM_CHOICES[index as int].profile() {
            Some(profile) => Some(profile.0),
            None => None,
        }),
{
    match FILM_CHOICES[index].stock() {
        Some(stock) => Some(stock.name),
        None => None,
    }
}

/// What the dates on a card show.
pub open spec fn dates_shown(dates: CardDates) -> Option<(bool, Seq<char>, Option<Seq<char>>)> {
    match dates {
        CardDates::Undated => None,
        CardDates::Formatted(s) => Some((true, s@, None)),
        CardDates::Raw { start, end } => Some((false, start@, text::text_of(end))),
    }
}

/// The dates on a roll's card, with the localized month names: formatted where
/// they are dates, and as recorded where they are not.
pub fn card_dates(months: &[&str; 12], roll: &Roll) -> (r: CardDates)
    ensures
        dates_shown(r) == (match roll.model().start_date {
            Some(start) => {
                let end = roll.model().end_date;
                let date = crate::dates::iso_date(start);
                if date is Some && (end is Some ==> library::end_of(end) is Some) {
                    Some(
                        (
                            true,
                            library::card_dates(
                                library::month_texts(months@),
                                date.unwrap(),
                                library::end_of(end),
                            ),
                            None,
                        ),
                    )
                } else {
                    Some((false, start, end))
                }
            },
            None => None,
        }),
{
    match &roll.start_date {
        Some(start) => match library::format_roll_card_dates(
            months,
            start.as_str(),
            text::as_slice(&roll.end_date),
        ) {
            Some(formatted) => CardDates::Formatted(formatted),
            None => CardDates::Raw {
                start: start.clone(),
                end: text::clone_option(&roll.end_date),
            },
        },
        None => CardDates::Undated,
    }
}

} // verus!
