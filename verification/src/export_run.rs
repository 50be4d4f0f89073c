//! Exporting frames: which ones, when, and what is told of it.

use vstd::prelude::*;
use crate::edit_manifest::EditData;
use crate::effect;
use crate::effect::{Effect, EffectModel, ExportFrame, ExportFrameModel};
use crate::export::ExportOptions;
use crate::names;
use crate::state;
use crate::state::{AppModel, Model};
use crate::text;

verus! {

impl Model {
    /// The frames that an export writes: the selected ones in sorted order, or
    /// else the highlighted one.
    pub open spec fn export_targets(self) -> Seq<Seq<char>> {
        if self.active is None {
            Seq::empty()
        } else if self.selected_frames == Set::<Seq<char>>::empty() {
            match self.frame_selected {
                Some(n) => seq![n],
                None => Seq::empty(),
            }
        } else {
            names::listing(self.selected_frames)
        }
    }

    /// Whether there is something to export.
    pub open spec fn has_export_targets(self) -> bool {
        self.active is Some && (self.frame_selected is Some || self.selected_frames != Set::<
            Seq<char>,
        >::empty())
    }

    /// A frame of an export, with the edits as they are now.
    pub open spec fn export_frame(self, name: Seq<char>) -> ExportFrameModel {
        ExportFrameModel {
            name,
            tone: self.roll.edits_of(name).tone(),
            crop: self.roll.edits_of(name).crop,
            rotation: (self.roll.edits_of(name).rotation % 4) as u8,
            index: match self.tile_at(name) {
                Some(k) => k,
                None => 0,
            },
        }
    }

    /// The frames of an export.
    pub open spec fn export_frames(self) -> Seq<ExportFrameModel> {
        self.export_targets().map_values(|n: Seq<char>| self.export_frame(n))
    }

    /// The state with an export running; while one runs no other begins.
    #[verifier::opaque]
    pub open spec fn export_begun(self, dest: Seq<char>, options: ExportOptions) -> Model {
        match self.active {
            Some(dir) if self.export_targets().len() > 0 && self.export_progress is None => Model {
                export_progress: Some((0usize, self.export_targets().len() as usize)),
                ..self
            }.emitting(
                EffectModel::BeginExport {
                    dir,
                    dest,
                    options,
                    preset: self.roll.film(),
                    base: self.roll.base_state(),
                    start_date: self.roll.start_date,
                    frames: self.export_frames(),
                },
            ),
            _ => self,
        }
    }

    /// The state with the export dialog open, unless it is, an export runs, or
    /// there is nothing to export.
    #[verifier::opaque]
    pub open spec fn export_requested(self) -> Model {
        if self.export_pending || self.export_progress is Some || !self.has_export_targets() {
            self
        } else {
            Model { export_pending: true, ..self }.emitting(EffectModel::OpenExportDialog)
        }
    }

    /// The state after the export dialog.
    #[verifier::opaque]
    pub open spec fn export_chosen(self, choice: Option<(String, ExportOptions)>) -> Model {
        let closed = Model { export_pending: false, ..self };
        match choice {
            Some((dest, options)) => closed.export_begun(dest@, options),
            None => closed,
        }
    }

    /// The state after an export, with its outcome told.
    #[verifier::opaque]
    pub open spec fn export_finished(
        self,
        ok: int,
        skipped: int,
        failed: int,
        dest: Seq<char>,
        start_date: Option<Seq<char>>,
    ) -> Model {
        Model { export_progress: None, ..self }.emitting(
            if failed == 0 && skipped == 0 {
                EffectModel::ToastDone { count: ok, dest, date: start_date }
            } else if failed == 0 {
                EffectModel::ToastSkipped { count: ok, dest, skipped }
            } else {
                EffectModel::ToastFailed { count: ok + failed, failed }
            },
        )
    }
}

impl AppModel {
    /// The frames that an export writes.
    pub fn export_targets(&self) -> (r: Vec<String>)
        requires
            self.well_formed(),
        ensures
            text::texts(r@) == self@.export_targets(),
    {
        let mut out: Vec<String> = Vec::new();
        if self.active.is_none() {
            assert(text::texts(out@) =~= Seq::<Seq<char>>::empty());
            return out;
        }
        if self.selected_frames.is_empty() {
            match &self.frame_selected {
                Some(name) => {
                    out.push(name.clone());
                    assert(text::texts(out@) =~= seq![name@]);
                },
                None => {
                    assert(text::texts(out@) =~= Seq::<Seq<char>>::empty());
                },
            }
            return out;
        }
        self.selected_frames.to_list()
    }

    /// Whether there is something to export.
    pub fn has_export_targets(&self) -> (r: bool)
        ensures
            r == self@.has_export_targets(),
    {
        self.active.is_some() && (self.frame_selected.is_some() || !self.selected_frames.is_empty())
    }

    /// The frames of an export, with their edits as they are now.
    fn export_frames(&self, names: &[String]) -> (r: Vec<ExportFrame>)
        requires
            self.well_formed(),
            text::texts(names@) == self@.export_targets(),
        ensures
            effect::export_frame_models(r@) == self@.export_frames(),
    {
        let mut out: Vec<ExportFrame> = Vec::new();
        let mut i: usize = 0;
        while i < names.len()
            invariant
                self.well_formed(),
                i <= names@.len(),
                text::texts(names@) == self@.export_targets(),
                out@.len() == i,
                forall|j: int|
                    0 <= j < i ==> (#[trigger] out@[j]).model() == self@.export_frames()[j],
            decreases names@.len() - i,
        {
            let name: &String = &names[i];
            let edits: EditData = self.roll.edit_data(name.as_str());
            let index: usize = match state::find_tile(self.tiles.as_slice(), name.as_str()) {
                Some(k) => k,
                None => 0,
            };
            assert(text::texts(names@)[i as int] == name@);
            let frame: ExportFrame = ExportFrame {
                name: name.clone(),
                tone: self.roll.tone(name.as_str()),
                crop: edits.crop,
                rotation: edits.rotation % 4,
                index,
            };
            assert(frame.model() == self@.export_frame(name@));
            let ghost held = out@;
            out.push(frame);
            proof {
                assert forall|j: int| 0 <= j < i + 1 implies (#[trigger] out@[j]).model()
                    == self@.export_frames()[j] by {
                    if j < i {
                        assert(out@[j] == held[j]);
                    }
                }
            }
            i += 1;
        }
        assert(text::texts(names@).len() == names@.len());
        assert(effect::export_frame_models(out@) =~= self@.export_frames());
        out
    }

    /// Begins an export.
    fn begin_export(&mut self, dest: String, options: ExportOptions)
        requires
            old(self).well_formed(),
        ensures
            final(self).well_formed(),
            final(self)@ == old(self)@.export_begun(dest@, options),
    {
        reveal(Model::export_begun);
        let dir: String = match &self.active {
            Some(dir) => dir.clone(),
            None => {
                return;
            },
        };
        let names: Vec<String> = self.export_targets();
        assert(text::texts(names@).len() == names@.len());
        if names.len() == 0 || self.export_progress.is_some() {
            return;
        }
        let frames: Vec<ExportFrame> = self.export_frames(names.as_slice());
        let e: Effect = Effect::BeginExport {
            dir,
            dest,
            options,
            preset: self.roll.preset(),
            base: self.roll.base_config(),
            start_date: text::clone_option(&self.roll.start_date),
            frames,
        };
        self.export_progress = Some((0, names.len()));
        self.emit(e);
    }

    /// Opens the export dialog.
    pub(crate) fn request_export(&mut self)
        requires
            old(self).well_formed(),
        ensures
            final(self).well_formed(),
            final(self)@ == old(self)@.export_requested(),
    {
        reveal(Model::export_requested);
        if self.export_pending || self.export_progress.is_some() || !self.has_export_targets() {
            return;
        }
        self.export_pending = true;
        self.emit(Effect::OpenExportDialog);
    }

    /// Acts on the export dialog's choice.
    pub(crate) fn choose_export(&mut self, choice: Option<(String, ExportOptions)>)
        requires
            old(self).well_formed(),
        ensures
            final(self).well_formed(),
            final(self)@ == old(self)@.export_chosen(choice),
    {
        reveal(Model::export_chosen);
        self.export_pending = false;
        match choice {
            Some((dest, options)) => self.begin_export(dest, options),
            None => {},
        }
    }

    /// Acts on the end of an export.
    pub(crate) fn finish_export(
        &mut self,
        ok: usize,
        skipped: usize,
        failed: usize,
        dest: String,
        start_date: Option<String>,
    )
        requires
            old(self).well_formed(),
            ok + failed <= usize::MAX,
        ensures
            final(self).well_formed(),
            final(self)@ == old(self)@.export_finished(
                ok as int,
                skipped as int,
                failed as int,
                dest@,
                text::text_of(start_date),
            ),
    {
        reveal(Model::export_finished);
        self.export_progress = None;
        let e: Effect = if failed == 0 && skipped == 0 {
            Effect::ToastDone { count: ok, dest, date: start_date }
        } else if failed == 0 {
            Effect::ToastSkipped { count: ok, dest, skipped }
        } else {
            Effect::ToastFailed { count: ok + failed, failed }
        };
        self.emit(e);
    }
}

/// While an export runs or its dialog is open, no other can begin.
pub proof fn exports_never_overlap(m: Model, dest: Seq<char>, options: ExportOptions)
    requires
        m.export_progress is Some,
    ensures
        m.export_requested() == m,
        m.export_begun(dest, options) == m,
{
    reveal(Model::export_requested);
    reveal(Model::export_begun);
}

} // verus!
