//! The library page: its rolls, its search, and the roll-info drawer.

use vstd::prelude::*;
use crate::dates;
use crate::drawer::{ContextPage, DrawerView};
use crate::effect::{Effect, EffectModel};
use crate::film::FilmPreset;
use crate::library;
use crate::library::{LibraryCell, LibrarySelection, Roll, RollModel, SelectionModel, Thumb};
use crate::message::{FrameMeta, RollDateField};
use crate::paths;
use crate::seqs;
use crate::state;
use crate::state::{AppModel, DraftsModel, Model, RollDateDrafts, TileModel};
use crate::text;

verus! {

/// The state of a picture after its decode.
pub open spec fn decoded(picture: Option<u64>) -> Thumb {
    match picture {
        Some(p) => Thumb::Ready(p),
        None => Thumb::Failed,
    }
}

/// The test of being another directory than the given one, however spelled.
pub open spec fn spells_other(dir: Seq<char>) -> spec_fn(Seq<char>) -> bool {
    |s: Seq<char>| paths::tidied(s) != paths::tidied(dir)
}

/// The test of being a roll of another directory.
pub open spec fn elsewhere(dir: Seq<char>) -> spec_fn(RollModel) -> bool {
    |r: RollModel| r.dir != dir
}

impl Model {
    /// The state without a selection that names a roll, and without the drawer
    /// that shows it.
    pub open spec fn deselected(self) -> Model {
        Model {
            library_selection: None,
            drawer: if self.drawer.page == ContextPage::RollInfo {
                self.drawer.closed(DrawerView::Library)
            } else {
                self.drawer
            },
            ..self
        }
    }

    /// The first roll that the library grid shows.
    pub open spec fn first_visible(self) -> Option<Seq<char>> {
        let places = library::grid_places(
            self.rolls,
            state::or_empty(self.search_filter),
            self.month_aliases,
        );
        if places.len() > 0 {
            Some(self.rolls[places[0]].dir)
        } else {
            None
        }
    }

    /// The state with the first visible roll selected, where the library is on
    /// screen and nothing is selected.
    #[verifier::opaque]
    pub open spec fn first_selected(self) -> Model {
        match self.first_visible() {
            Some(dir) if self.active is None && self.library_selection is None => self.selecting(
                SelectionModel::Roll(dir),
            ),
            _ => self,
        }
    }

    /// Whether the selection names a roll that the library does not have.
    pub open spec fn selection_stale(self) -> bool {
        match self.library_selection {
            Some(SelectionModel::Roll(dir)) => self.roll_at(dir) is None,
            _ => false,
        }
    }

    /// The state with the rolls of the startup scan.
    #[verifier::opaque]
    pub open spec fn rolls_loaded(self, rolls: Seq<RollModel>) -> Model {
        let loaded = Model { rolls, cover_inflight: Seq::empty(), ..self };
        let sound = if loaded.selection_stale() {
            loaded.deselected()
        } else {
            loaded
        };
        sound.first_selected().covers_pumped()
    }

    /// The state with a scanned roll in the library, unless it has it.
    #[verifier::opaque]
    pub open spec fn roll_listed(self, roll: RollModel) -> Model {
        if self.roll_at(roll.dir) is Some {
            self
        } else {
            Model {
                rolls: library::sorted_by_name(self.rolls.push(roll)),
                ..self
            }.covers_pumped()
        }
    }

    /// The state after a cover was decoded.
    #[verifier::opaque]
    pub open spec fn cover_decoded(self, dir: Seq<char>, picture: Option<u64>) -> Model {
        let shown = match self.roll_at(dir) {
            Some(k) => self.with_cover(k, decoded(picture)),
            None => self,
        };
        Model {
            cover_inflight: seqs::without(shown.cover_inflight, dir),
            ..shown
        }.covers_pumped()
    }

    /// The state after a thumbnail was decoded.
    #[verifier::opaque]
    pub open spec fn thumb_decoded(self, name: Seq<char>, picture: Option<u64>) -> Model {
        let shown = match self.tile_at(name) {
            Some(k) => self.with_thumb(k, decoded(picture)),
            None => self,
        };
        Model {
            thumb_inflight: seqs::without(shown.thumb_inflight, name),
            ..shown
        }.thumbs_pumped()
    }

    /// The state after a frame's EXIF was read.
    #[verifier::opaque]
    pub open spec fn frame_info_read(self, name: Seq<char>, meta: Option<FrameMeta>) -> Model {
        let tiles = match self.tile_at(name) {
            Some(k) => self.tiles.update(
                k,
                match meta {
                    Some(read) => TileModel { meta: Some(read), ..self.tiles[k] },
                    None => TileModel { meta_failed: true, ..self.tiles[k] },
                },
            ),
            None => self.tiles,
        };
        Model {
            tiles,
            frame_meta_inflight: if self.frame_meta_inflight == Some(name) {
                None
            } else {
                self.frame_meta_inflight
            },
            ..self
        }
    }

    /// The state with a roll added, selected and opened. A roll that the
    /// library does not have goes into the configuration.
    #[verifier::opaque]
    pub open spec fn roll_added(self, given: Seq<char>, preset: FilmPreset) -> Model {
        let dir = paths::tidied(given);
        let known = if self.roll_at(dir) is Some {
            self
        } else {
            Model { config: self.config.push(given), ..self }.config_persisted()
        };
        known.emitting(EffectModel::RecordPreset { dir, preset }).card_preset(
            dir,
            preset,
        ).selecting(SelectionModel::Roll(dir)).emitting(
            EffectModel::ScanRoll { dir },
        ).roll_opening(dir).covers_pumped()
    }

    /// The state with a roll taken off the library. Nothing on disk changes but
    /// the configuration. While a roll is open none is taken off.
    #[verifier::opaque]
    pub open spec fn roll_removed(self, dir: Seq<char>) -> Model {
        if self.active is Some || self.roll_at(dir) is None {
            self
        } else {
            let listed = Model {
                config: self.config.filter(spells_other(dir)),
                ..self
            }.config_persisted();
            let less = Model { rolls: listed.rolls.filter(elsewhere(dir)), ..listed };
            let free = if less.library_selection == Some(SelectionModel::Roll(dir)) {
                less.deselected()
            } else {
                less
            };
            free.first_selected()
        }
    }

    /// The state with the date drafts as the selected roll's dates are.
    pub open spec fn dates_reseeded(self) -> Model {
        match self.library_selection {
            Some(SelectionModel::Roll(dir)) => Model {
                roll_date_drafts: self.seeds(dir).0,
                ..self
            },
            _ => self.drafts_synced(),
        }
    }

    /// A roll's dates with one replaced.
    pub open spec fn dates_with(self, k: int, field: RollDateField, date: Option<Seq<char>>) -> (
        Option<Seq<char>>,
        Option<Seq<char>>,
    ) {
        match field {
            RollDateField::Start => (date, self.rolls[k].end_date),
            RollDateField::End => (self.rolls[k].start_date, date),
        }
    }

    /// The date that a field's draft stands for: an empty one for none.
    pub open spec fn drafted(self, field: RollDateField) -> Option<Seq<char>> {
        let draft = library::trimmed_text(self.roll_date_drafts.field(field));
        if draft.len() == 0 {
            None
        } else {
            Some(draft)
        }
    }

    /// The state with a roll's dates set, on its card, in the drafts and on
    /// disk.
    pub open spec fn dates_set(
        self,
        k: int,
        dir: Seq<char>,
        dates: (Option<Seq<char>>, Option<Seq<char>>),
    ) -> Model {
        Model {
            rolls: self.rolls.update(
                k,
                RollModel { start_date: dates.0, end_date: dates.1, ..self.rolls[k] },
            ),
            roll_date_drafts: DraftsModel::seeded(dir, dates.0, dates.1),
            ..self.emitting(EffectModel::RecordDates { dir, start: dates.0, end: dates.1 })
        }
    }

    /// The state after a date field was submitted. A date that is none, or
    /// would have the roll end before it starts, is dropped.
    #[verifier::opaque]
    pub open spec fn date_submitted(self, field: RollDateField) -> Model {
        let date = self.drafted(field);
        if date is Some && dates::iso_date(date.unwrap()) is None {
            self.dates_reseeded()
        } else {
            match self.library_selection {
                Some(SelectionModel::Roll(dir)) => match self.roll_at(dir) {
                    Some(k) => {
                        let next = self.dates_with(k, field, date);
                        if dates::dates_coherent(next.0, next.1) {
                            self.dates_set(k, dir, next)
                        } else {
                            self.dates_reseeded()
                        }
                    },
                    None => self.drafts_synced(),
                },
                _ => self.drafts_synced(),
            }
        }
    }

    /// The name that a submitted draft gives a roll: an empty draft stands for
    /// the directory's own name.
    pub open spec fn name_given(self, k: int, dir: Seq<char>) -> Seq<char> {
        let draft = library::trimmed_text(self.roll_name_draft);
        if draft.len() > 0 {
            draft
        } else {
            match paths::file_name(dir) {
                Some(leaf) => leaf,
                None => self.rolls[k].name,
            }
        }
    }

    /// The state after the roll name was submitted.
    #[verifier::opaque]
    pub open spec fn name_submitted(self) -> Model {
        let draft = library::trimmed_text(self.roll_name_draft);
        match self.library_selection {
            Some(SelectionModel::Roll(dir)) => match self.roll_at(dir) {
                Some(k) => Model {
                    rolls: self.rolls.update(
                        k,
                        RollModel { name: self.name_given(k, dir), ..self.rolls[k] },
                    ),
                    roll_name_draft: self.name_given(k, dir),
                    ..self.emitting(
                        EffectModel::RecordName {
                            dir,
                            name: if draft.len() > 0 {
                                Some(draft)
                            } else {
                                None
                            },
                        },
                    )
                },
                None => self.drafts_synced(),
            },
            _ => self.drafts_synced(),
        }
    }

    /// The state with the search field shown and focused, unless it is shown
    /// already; a roll's frames are not searched.
    #[verifier::opaque]
    pub open spec fn search_activated(self) -> Model {
        if self.active is Some || self.search is Some {
            self
        } else {
            Model {
                search: Some(Seq::empty()),
                search_filter: None,
                search_version: self.search_version.wrapping_add(1),
                ..self
            }.emitting(EffectModel::FocusSearch)
        }
    }

    /// The state after the search text changed: it is applied after a while,
    /// unless it changes again.
    #[verifier::opaque]
    pub open spec fn search_typed(self, term: Seq<char>) -> Model {
        let version = self.search_version.wrapping_add(1);
        Model { search: Some(term), search_version: version, ..self }.emitting(
            EffectModel::SearchTimer { term, version },
        )
    }

    /// The state with a search text applied, unless it is stale.
    #[verifier::opaque]
    pub open spec fn search_applied(self, term: Seq<char>, version: u64) -> Model {
        if version == self.search_version {
            Model { search_filter: Some(term), ..self }
        } else {
            self
        }
    }
}

/// The rolls of other directories, in their order.
fn other_rolls(rolls: Vec<Roll>, dir: &str) -> (r: Vec<Roll>)
    ensures
        library::roll_models(r@) == library::roll_models(rolls@).filter(elsewhere(dir@)),
{
    let ghost all = library::roll_models(rolls@);
    let ghost test = elsewhere(dir@);
    let mut rest: Vec<Roll> = rolls;
    let mut kept: Vec<Roll> = Vec::new();
    let ghost mut k: int = 0;
    proof {
        reveal(Seq::filter);
        assert(all.skip(0) =~= all);
        assert(all.take(0) =~= Seq::<RollModel>::empty());
        assert(library::roll_models(kept@) =~= all.take(0).filter(test));
    }
    while rest.len() > 0
        invariant
            0 <= k <= all.len(),
            test == elsewhere(dir@),
            library::roll_models(rest@) == all.skip(k),
            library::roll_models(kept@) == all.take(k).filter(test),
        decreases rest@.len(),
    {
        let ghost before = rest@;
        let ghost held = kept@;
        let roll: Roll = rest.remove(0);
        proof {
            assert(library::roll_models(before).len() == all.len() - k);
            assert(library::roll_models(before)[0] == all.skip(k)[0]);
            assert(roll.model() == all[k]);
            seqs::filter_one_more(all, test, k);
            assert forall|i: int| 0 <= i < rest@.len() implies library::roll_models(rest@)[i]
                == all.skip(k + 1)[i] by {
                assert(library::roll_models(before)[i + 1] == all.skip(k)[i + 1]);
            }
            assert(library::roll_models(rest@) =~= all.skip(k + 1));
        }
        if !text::same_text(roll.dir.as_str(), dir) {
            kept.push(roll);
            assert(library::roll_models(kept@) =~= library::roll_models(held).push(roll.model()));
        }
        proof {
            k = k + 1;
        }
    }
    proof {
        assert(library::roll_models(rest@).len() == all.len() - k);
        assert(all.take(k) =~= all);
    }
    kept
}

/// The directories that are spelled otherwise than a given one in every
/// spelling, in their order.
fn other_dirs(dirs: &[String], dir: &str) -> (r: Vec<String>)
    ensures
        text::texts(r@) == text::texts(dirs@).filter(spells_other(dir@)),
{
    let ghost all = text::texts(dirs@);
    let ghost test = spells_other(dir@);
    let plain: String = paths::tidy(dir);
    let mut kept: Vec<String> = Vec::new();
    let mut i: usize = 0;
    proof {
        reveal(Seq::filter);
        assert(all.take(0) =~= Seq::<Seq<char>>::empty());
        assert(text::texts(kept@) =~= all.take(0).filter(test));
    }
    while i < dirs.len()
        invariant
            i <= dirs@.len(),
            all == text::texts(dirs@),
            test == spells_other(dir@),
            plain@ == paths::tidied(dir@),
            text::texts(kept@) == all.take(i as int).filter(test),
        decreases dirs@.len() - i,
    {
        let ghost held = kept@;
        proof {
            assert(all[i as int] == dirs@[i as int]@);
            seqs::filter_one_more(all, test, i as int);
        }
        let other: String = paths::tidy(dirs[i].as_str());
        if !text::same_text(other.as_str(), plain.as_str()) {
            kept.push(dirs[i].clone());
            assert(text::texts(kept@) =~= text::texts(held).push(all[i as int]));
        }
        i += 1;
    }
    assert(all.take(i as int) =~= all);
    kept
}

impl AppModel {
    /// Drops a selection that names a roll, and closes the drawer that shows
    /// it.
    fn deselect(&mut self)
        requires
            old(self).well_formed(),
        ensures
            final(self).well_formed(),
            final(self)@ == old(self)@.deselected(),
    {
        self.library_selection = None;
        if self.drawer.page == ContextPage::RollInfo {
            self.drawer.close(DrawerView::Library);
        }
    }

    /// The directory of the first roll that the library grid shows.
    fn first_visible_roll(&self) -> (r: Option<String>)
        ensures
            text::text_of(r) == self@.first_visible(),
    {
        let query: String = state::text_or_empty(text::as_slice(&self.search_filter));
        let cells: Vec<LibraryCell<'_>> = library::library_cells(
            self.rolls.as_slice(),
            query.as_str(),
            &self.month_aliases,
        );
        let ghost places = library::grid_places(self@.rolls, query@, self.month_aliases);
        let lead: usize = if cells.len() > 0 {
            match cells[0] {
                LibraryCell::AddRoll => 1,
                LibraryCell::Roll(_) => 0,
            }
        } else {
            0
        };
        if lead < cells.len() {
            proof {
                if library::blank(query@) {
                    assert(lead == 1);
                } else {
                    assert(cells@[0] is Roll);
                    assert(lead == 0);
                }
            }
            match &cells[lead] {
                LibraryCell::Roll(roll) => Some(roll.dir.clone()),
                LibraryCell::AddRoll => None,
            }
        } else {
            None
        }
    }

    /// Selects the first visible roll, where the library is on screen and
    /// nothing is selected.
    fn select_first_visible_roll(&mut self)
        requires
            old(self).well_formed(),
        ensures
            final(self).well_formed(),
            final(self)@ == old(self)@.first_selected(),
    {
        reveal(Model::first_selected);
        if self.active.is_some() || self.library_selection.is_some() {
            return;
        }
        match self.first_visible_roll() {
            Some(dir) => self.set_library_selection(LibrarySelection::Roll(dir)),
            None => {},
        }
    }

    /// Whether the selection names a roll that the library does not have.
    fn selection_is_stale(&self) -> (r: bool)
        ensures
            r == self@.selection_stale(),
    {
        match &self.library_selection {
            Some(LibrarySelection::Roll(dir)) => {
                state::find_roll(self.rolls.as_slice(), dir.as_str()).is_none()
            },
            _ => false,
        }
    }

    /// Takes in the rolls of the startup scan.
    pub(crate) fn load_rolls(&mut self, rolls: Vec<Roll>)
        requires
            old(self).well_formed(),
        ensures
            final(self).well_formed(),
            final(self)@ == old(self)@.rolls_loaded(library::roll_models(rolls@)),
    {
        reveal(Model::rolls_loaded);
        self.rolls = rolls;
        self.cover_inflight = Vec::new();
        assert(self@.cover_inflight =~= Seq::<Seq<char>>::empty());
        if self.selection_is_stale() {
            self.deselect();
        }
        self.select_first_visible_roll();
        self.decode_covers();
    }

    /// Takes a scanned roll into the library.
    pub(crate) fn list_roll(&mut self, roll: Roll)
        requires
            old(self).well_formed(),
        ensures
            final(self).well_formed(),
            final(self)@ == old(self)@.roll_listed(roll.model()),
    {
        reveal(Model::roll_listed);
        if state::find_roll(self.rolls.as_slice(), roll.dir.as_str()).is_some() {
            return;
        }
        let ghost before = self.rolls@;
        let mut all: Vec<Roll> = Vec::new();
        std::mem::swap(&mut all, &mut self.rolls);
        all.push(roll);
        assert(library::roll_models(all@) =~= library::roll_models(before).push(roll.model()));
        self.rolls = library::sort_by_name(all);
        self.decode_covers();
    }

    /// Acts on a decoded cover.
    pub(crate) fn take_cover(&mut self, dir: String, picture: Option<u64>)
        requires
            old(self).well_formed(),
        ensures
            final(self).well_formed(),
            final(self)@ == old(self)@.cover_decoded(dir@, picture),
    {
        reveal(Model::cover_decoded);
        let thumb: Thumb = match picture {
            Some(p) => Thumb::Ready(p),
            None => Thumb::Failed,
        };
        match state::find_roll(self.rolls.as_slice(), dir.as_str()) {
            Some(k) => self.set_cover(k, thumb),
            None => {},
        }
        seqs::remove_name(&mut self.cover_inflight, dir.as_str());
        self.decode_covers();
    }

    /// Acts on a decoded thumbnail.
    pub(crate) fn take_thumb(&mut self, name: String, picture: Option<u64>)
        requires
            old(self).well_formed(),
        ensures
            final(self).well_formed(),
            final(self)@ == old(self)@.thumb_decoded(name@, picture),
    {
        reveal(Model::thumb_decoded);
        let thumb: Thumb = match picture {
            Some(p) => Thumb::Ready(p),
            None => Thumb::Failed,
        };
        match state::find_tile(self.tiles.as_slice(), name.as_str()) {
            Some(k) => self.set_thumb(k, thumb),
            None => {},
        }
        seqs::remove_name(&mut self.thumb_inflight, name.as_str());
        self.decode_next();
    }

    /// Acts on a frame's EXIF.
    #[verifier::rlimit(30)]
    pub(crate) fn take_frame_info(&mut self, name: String, meta: Option<FrameMeta>)
        requires
            old(self).well_formed(),
        ensures
            final(self).well_formed(),
            final(self)@ == old(self)@.frame_info_read(name@, meta),
    {
        reveal(Model::frame_info_read);
        match state::find_tile(self.tiles.as_slice(), name.as_str()) {
            Some(k) => {
                let ghost before = self.tiles@;
                match meta {
                    Some(read) => {
                        self.tiles[k].meta = Some(read);
                        assert(state::tile_models(self.tiles@) =~= state::tile_models(
                            before,
                        ).update(
                            k as int,
                            TileModel { meta: Some(read), ..before[k as int].model() },
                        ));
                    },
                    None => {
                        self.tiles[k].meta_failed = true;
                        assert(state::tile_models(self.tiles@) =~= state::tile_models(
                            before,
                        ).update(
                            k as int,
                            TileModel { meta_failed: true, ..before[k as int].model() },
                        ));
                    },
                }
            },
            None => {},
        }
        if text::same_option(text::as_slice(&self.frame_meta_inflight), Some(name.as_str())) {
            self.frame_meta_inflight = None;
        }
    }

    /// Adds a roll, selects it and opens it.
    pub(crate) fn add_roll(&mut self, given: String, preset: FilmPreset)
        requires
            old(self).well_formed(),
        ensures
            final(self).well_formed(),
            final(self)@ == old(self)@.roll_added(given@, preset),
    {
        reveal(Model::roll_added);
        let dir: String = paths::tidy(given.as_str());
        if state::find_roll(self.rolls.as_slice(), dir.as_str()).is_none() {
            let ghost before = self.config.rolls@;
            self.config.rolls.push(given);
            assert(text::texts(self.config.rolls@) =~= text::texts(before).push(given@));
            self.persist_config();
        }
        self.emit(Effect::RecordPreset { dir: dir.clone(), preset });
        self.set_card_preset(dir.as_str(), preset);
        self.set_library_selection(LibrarySelection::Roll(dir.clone()));
        self.emit(Effect::ScanRoll { dir: dir.clone() });
        self.open_roll(dir);
        self.decode_covers();
    }

    /// Takes a roll off the library.
    pub(crate) fn remove_roll(&mut self, dir: &str)
        requires
            old(self).well_formed(),
        ensures
            final(self).well_formed(),
            final(self)@ == old(self)@.roll_removed(dir@),
    {
        reveal(Model::roll_removed);
        if self.active.is_some() {
            return;
        }
        if state::find_roll(self.rolls.as_slice(), dir).is_none() {
            return;
        }
        self.config.rolls = other_dirs(self.config.rolls.as_slice(), dir);
        self.persist_config();
        let mut all: Vec<Roll> = Vec::new();
        std::mem::swap(&mut all, &mut self.rolls);
        self.rolls = other_rolls(all, dir);
        let named: bool = match &self.library_selection {
            Some(LibrarySelection::Roll(s)) => text::same_text(s.as_str(), dir),
            _ => false,
        };
        if named {
            self.deselect();
        }
        self.select_first_visible_roll();
    }

    /// Removes the roll that is selected.
    pub(crate) fn remove_selected_roll(&mut self)
        requires
            old(self).well_formed(),
        ensures
            final(self).well_formed(),
            final(self)@ == (match old(self)@.library_selection {
                Some(SelectionModel::Roll(dir)) => old(self)@.roll_removed(dir),
                _ => old(self)@,
            }),
    {
        match &self.library_selection {
            Some(LibrarySelection::Roll(dir)) => {
                let dir: String = dir.clone();
                self.remove_roll(dir.as_str());
            },
            _ => {},
        }
    }

    /// Has the date drafts be as the selected roll's dates are.
    fn reseed_dates(&mut self)
        requires
            old(self).well_formed(),
        ensures
            final(self).well_formed(),
            final(self)@ == old(self)@.dates_reseeded(),
    {
        match &self.library_selection {
            Some(LibrarySelection::Roll(dir)) => {
                let (drafts, _name): (RollDateDrafts, String) = self.seeded_drafts(dir.as_str());
                self.roll_date_drafts = drafts;
            },
            _ => self.sync_roll_date_drafts(),
        }
    }

    /// The date that a field's draft stands for.
    fn drafted_date(&self, field: RollDateField) -> (r: Option<String>)
        ensures
            text::text_of(r) == self@.drafted(field),
    {
        let draft: String = library::trim(self.roll_date_drafts.get(field));
        if is_empty(draft.as_str()) {
            None
        } else {
            Some(draft)
        }
    }

    /// Sets a roll's dates on its card, in the drafts and on disk.
    fn set_dates(&mut self, k: usize, dir: String, start: Option<String>, end: Option<String>)
        requires
            old(self).well_formed(),
            k < old(self).rolls@.len(),
        ensures
            final(self).well_formed(),
            final(self)@ == old(self)@.dates_set(
                k as int,
                dir@,
                (text::text_of(start), text::text_of(end)),
            ),
    {
        let ghost before = self.rolls@;
        self.emit(
            Effect::RecordDates {
                dir: dir.clone(),
                start: text::clone_option(&start),
                end: text::clone_option(&end),
            },
        );
        assert(self@.rolls == library::roll_models(before));
        assert(self@.rolls.len() == self.rolls@.len());
        self.roll_date_drafts = RollDateDrafts::from_dates(
            dir.as_str(),
            text::as_slice(&start),
            text::as_slice(&end),
        );
        let ghost models = self@.rolls;
        let ghost dates = (text::text_of(start), text::text_of(end));
        assert(models[k as int] == self.rolls@[k as int].model());
        self.rolls[k].start_date = start;
        self.rolls[k].end_date = end;
        assert(self@.rolls =~= models.update(
            k as int,
            RollModel { start_date: dates.0, end_date: dates.1, ..models[k as int] },
        ));
    }

    /// Acts on a submitted date field.
    pub(crate) fn submit_date(&mut self, field: RollDateField)
        requires
            old(self).well_formed(),
        ensures
            final(self).well_formed(),
            final(self)@ == old(self)@.date_submitted(field),
    {
        reveal(Model::date_submitted);
        let date: Option<String> = self.drafted_date(field);
        let valid: bool = match &date {
            Some(d) => dates::valid_iso_date(d.as_str()),
            None => true,
        };
        if !valid {
            self.reseed_dates();
            return;
        }
        let dir: String = match &self.library_selection {
            Some(LibrarySelection::Roll(dir)) => dir.clone(),
            _ => {
                self.sync_roll_date_drafts();
                return;
            },
        };
        let k: usize = match state::find_roll(self.rolls.as_slice(), dir.as_str()) {
            Some(k) => k,
            None => {
                self.sync_roll_date_drafts();
                return;
            },
        };
        assert(self@.rolls[k as int] == self.rolls@[k as int].model());
        let (start, end): (Option<String>, Option<String>) = match field {
            RollDateField::Start => (date, text::clone_option(&self.rolls[k].end_date)),
            RollDateField::End => (text::clone_option(&self.rolls[k].start_date), date),
        };
        if dates::roll_dates_valid(text::as_slice(&start), text::as_slice(&end)) {
            self.set_dates(k, dir, start, end);
        } else {
            self.reseed_dates();
        }
    }

    /// Acts on a submitted roll name.
    pub(crate) fn submit_name(&mut self)
        requires
            old(self).well_formed(),
        ensures
            final(self).well_formed(),
            final(self)@ == old(self)@.name_submitted(),
    {
        reveal(Model::name_submitted);
        let draft: String = library::trim(self.roll_name_draft.as_str());
        let dir: String = match &self.library_selection {
            Some(LibrarySelection::Roll(dir)) => dir.clone(),
            _ => {
                self.sync_roll_date_drafts();
                return;
            },
        };
        let k: usize = match state::find_roll(self.rolls.as_slice(), dir.as_str()) {
            Some(k) => k,
            None => {
                self.sync_roll_date_drafts();
                return;
            },
        };
        let ghost models = self@.rolls;
        assert(models[k as int] == self.rolls@[k as int].model());
        let (label, name): (Option<String>, String) = if is_empty(draft.as_str()) {
            match paths::file_name_of(dir.as_str()) {
                Some(leaf) => (None, leaf),
                None => (None, self.rolls[k].name.clone()),
            }
        } else {
            (Some(draft.clone()), draft)
        };
        let ghost given = name@;
        assert(given == self@.name_given(k as int, dir@));
        self.emit(Effect::RecordName { dir, name: label });
        assert(self@.rolls == models);
        assert(self@.rolls.len() == self.rolls@.len());
        assert(models[k as int] == self.rolls@[k as int].model());
        self.roll_name_draft = name.clone();
        self.rolls[k].name = name;
        assert(self@.rolls =~= models.update(
            k as int,
            RollModel { name: given, ..models[k as int] },
        ));
    }

    /// Shows the search field.
    pub(crate) fn activate_search(&mut self)
        requires
            old(self).well_formed(),
        ensures
            final(self).well_formed(),
            final(self)@ == old(self)@.search_activated(),
    {
        reveal(Model::search_activated);
        if self.active.is_some() || self.search.is_some() {
            return;
        }
        let blank: String = String::new();
        assert(blank@ =~= Seq::<char>::empty());
        self.search = Some(blank);
        self.search_filter = None;
        self.search_version = self.search_version.wrapping_add(1);
        self.emit(Effect::FocusSearch);
    }

    /// Acts on a change of the search text.
    pub(crate) fn type_search(&mut self, term: String)
        requires
            old(self).well_formed(),
        ensures
            final(self).well_formed(),
            final(self)@ == old(self)@.search_typed(term@),
    {
        reveal(Model::search_typed);
        let version: u64 = self.search_version.wrapping_add(1);
        self.search = Some(term.clone());
        self.search_version = version;
        self.emit(Effect::SearchTimer { term, version });
    }

    /// Applies a search text, unless it is stale.
    pub(crate) fn apply_search(&mut self, term: String, version: u64)
        requires
            old(self).well_formed(),
        ensures
            final(self).well_formed(),
            final(self)@ == old(self)@.search_applied(term@, version),
    {
        reveal(Model::search_applied);
        if version == self.search_version {
            self.search_filter = Some(term);
        }
    }
}

/// Whether a text is empty.
fn is_empty(s: &str) -> (r: bool)
    ensures
        r == (s@.len() == 0),
{
    let chars: Vec<char> = text::chars_of(s);
    chars.len() == 0
}

} // verus!
