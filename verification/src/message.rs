//! What the application reacts to: user input and the results of background
//! work.

use vstd::prelude::*;
use crate::config::Config;
use crate::drawer::ContextPage;
use crate::edit_manifest::RollManifest;
use crate::export::ExportOptions;
use crate::film::{BaseMode, FilmPreset};
use crate::library::{MoveDir, Roll};
use crate::single::Single;

verus! {

/// The modifier keys that are held.
#[derive(Clone, Copy, Debug, PartialEq, Eq, Structural)]
pub struct Modifiers {
    pub control: bool,
    pub shift: bool,
    pub alt: bool,
}

/// A point or an offset on the screen, in logical points.
#[derive(Clone, Copy, Debug, PartialEq, Eq, Structural)]
pub struct Point {
    pub x: Single,
    pub y: Single,
}

/// A single editing-control adjustment from a keyboard shortcut: which control
/// and the signed delta to apply.
#[derive(Clone, Copy, Debug, PartialEq, Eq, Structural)]
pub enum EditAdjust {
    Exposure(Single),
    Contrast(Single),
    Rolloff(Single),
    Shadows(Single),
    /// Rotate the display one quarter-turn counter-clockwise.
    RotateCcw,
}

/// Which roll date field a draft or commit is about.
#[derive(Clone, Copy, Debug, PartialEq, Eq, Structural)]
pub enum RollDateField {
    Start,
    End,
}

/// A decoded picture for the detail view: the number its samples are kept
/// under, and its geometry.
#[derive(Clone, Copy, Debug, PartialEq, Eq, Structural)]
pub struct DetailMono {
    pub buffer: u64,
    /// The dimensions of the whole frame as displayed upright, which crop
    /// margins are counted against.
    pub source_width: u32,
    pub source_height: u32,
    /// The sensor's long edge before the picture was scaled down.
    pub src_long_edge: u32,
}

/// Basic EXIF readout of a frame: what the file has, already formatted.
#[derive(Debug)]
pub struct FrameMeta {
    pub width: Option<String>,
    pub height: Option<String>,
    pub make: Option<String>,
    pub model: Option<String>,
    pub iso: Option<String>,
    pub exposure: Option<String>,
    pub aperture: Option<String>,
    pub focal: Option<String>,
    pub lens: Option<String>,
    pub date: Option<String>,
}

/// Messages emitted by the widgets and by background work.
#[derive(Debug)]
pub enum Message {
    /// Close the detail view, or back out of the roll.
    DetailClosed,
    /// A decode for the detail view finished. `cap` is the zoom cap for the
    /// decoded picture, and `one_to_one` the zoom that shows it pixel by pixel.
    DetailReady {
        name: String,
        preset: FilmPreset,
        result: Result<DetailMono, String>,
        cap: Single,
        one_to_one: Single,
    },
    /// A neighbor preload decode finished.
    DetailPreloaded {
        dir: String,
        name: String,
        preset: FilmPreset,
        result: Result<DetailMono, String>,
    },
    /// The startup roll scan finished.
    RollsLoaded(Vec<Roll>),
    /// A single roll was scanned after being added.
    RollInfoLoaded(Roll),
    /// A roll cover decode finished; without a picture it failed.
    CoverReady(String, Option<u64>),
    /// The folder picker returned a roll directory, with the film preset chosen
    /// for it.
    RollAdded(String, FilmPreset),
    /// A roll's film preset was changed in the roll-info drawer.
    RollPresetChanged(String, FilmPreset),
    /// A roll's base strategy was changed in the roll-info drawer.
    RollBaseModeChanged(String, BaseMode),
    /// Make the viewed frame the roll's calibration frame. Carries the samples
    /// of the frame's cached overview, if there is one.
    CalibrateBaseFromFrame(Vec<Single>),
    /// A measurement of a roll's calibration frame landed: the roll, the frame,
    /// its plausible base, and the roll's manifest as it is on disk.
    CalibrationBaseMeasured(String, String, Option<Single>, RollManifest),
    /// The Add Roll button was pressed.
    AddRoll,
    /// A roll tile was clicked.
    RollSelected(String),
    /// Remove a roll from the library.
    RemoveRoll(String),
    /// Remove the roll that is selected.
    RemoveSelectedRoll,
    /// The Add Roll tile was clicked.
    AddRollSelected,
    /// Open what is selected.
    OpenSelected,
    /// A roll tile was double-clicked.
    RollActivated(String),
    /// Arrow-key navigation.
    Nav(MoveDir),
    /// A frame tile was clicked.
    FrameSelected(String),
    /// Select every frame of the open roll.
    SelectAllFrames,
    /// The held modifier keys changed.
    ModifiersChanged(Modifiers),
    /// A grid reported how many columns it shows.
    GridViewport(usize),
    /// The frame scan of an opened roll finished: the roll, its frame files in
    /// order, and its manifest.
    RollOpened(String, Vec<String>, RollManifest),
    /// The EXIF readout of a frame finished; without one it failed.
    FrameInfoReady(String, Option<FrameMeta>),
    /// Reveal the search field, unless it is shown already.
    SearchActivate,
    /// Hide the search field.
    SearchClear,
    /// The search text changed.
    SearchInput(String),
    /// A search text is ready to apply, unless its serial is stale.
    SearchCommitted(String, u64),
    LaunchUrl(String),
    /// A thumbnail decode finished; without a picture it failed.
    ThumbReady(String, Option<u64>),
    /// A thumbnail was double-clicked.
    ThumbnailActivated(String),
    /// An animation tick of the crossfade, with the thumbnail's new opacity.
    DetailFadeTick(Single),
    /// The exposure slider moved.
    ExposureChanged(Single),
    /// A keyboard shortcut adjusted an editing control of the open frame;
    /// `moved` is the control's value with the delta applied.
    AdjustEdit { adjust: EditAdjust, moved: Single },
    /// An editing-shortcut key was released.
    EditKeyReleased,
    /// The wheel turned in the detail view; `one_to_one` is the zoom that shows
    /// the picture pixel by pixel.
    DetailZoom { zoom: Single, pan: Point, one_to_one: Single },
    /// The detail preview was laid out anew, with its size.
    DetailAreaResized(Point),
    /// The mouse was pressed on the detail preview.
    DetailPanPress,
    /// The cursor moved over the detail preview; `pan` is the pan that a drag
    /// from the last position would give.
    DetailPanMove { cursor: Point, pan: Point },
    /// The mouse was released or left the preview.
    DetailPanRelease,
    /// The tone sliders moved: contrast, rolloff and shadows powers.
    CurveChanged(Single, Single, Single),
    /// Go back to the edits that the detail view opened with.
    ResetAll,
    /// Take the crop off.
    ResetCrop,
    /// A roll date field was typed into.
    RollDateDraftChange(RollDateField, String),
    /// A roll date field was submitted.
    RollDateDraftSubmit(RollDateField),
    /// The roll name heading was typed into.
    RollNameDraftChange(String),
    /// The roll name heading was submitted.
    RollNameDraftSubmit,
    /// Toggle the detail view's crop mode; outside that view nothing happens.
    ToggleCropMode,
    /// Toggle the keyboard-help overlay.
    ToggleHelp,
    /// Write the edits to disk.
    EditSave,
    /// Copy the focused frame's tone.
    CopyEdits,
    /// Paste the copied tone onto the selected frames, or onto the focused one
    /// where none is selected.
    PasteEdits,
    /// An input event to be swallowed.
    Ignore,
    /// Open the export dialog.
    ExportRequested,
    /// One more frame of the export is done.
    ExportProgress { done: usize, total: usize },
    /// The export dialog finished; without a choice it was cancelled.
    ExportChosen(Option<(String, ExportOptions)>),
    /// The export batch finished.
    ExportDone {
        ok: usize,
        skipped: usize,
        failed: usize,
        dest: String,
        start_date: Option<String>,
    },
    /// A toast ran out or was closed.
    ToastClose(u64),
    /// Quit the application.
    Quit,
    /// A drawer page's own close button or menu entry.
    ToggleContextPage(ContextPage),
    /// Toggle the current view's drawer.
    ToggleContext,
    /// The stored configuration changed.
    UpdateConfig(Config),
}

} // verus!
