//! What the application asks its surroundings to do.

use vstd::prelude::*;
use crate::edit_manifest::{CropMargins, ManifestModel, RollManifest, ToneEdit};
use crate::export::ExportOptions;
use crate::film::{BaseConfig, BaseMode, FilmPreset};
use crate::text;

verus! {

/// Which grid is on screen.
#[derive(Clone, Copy, Debug, PartialEq, Eq, Structural)]
pub enum GridId {
    Rolls,
    Frames,
}

/// A frame of an export batch with its stored edits and its place in the roll.
#[derive(Debug)]
pub struct ExportFrame {
    pub name: String,
    pub tone: ToneEdit,
    pub crop: CropMargins,
    pub rotation: u8,
    pub index: usize,
}

/// What an export frame stands for.
#[verifier::ext_equal]
pub struct ExportFrameModel {
    pub name: Seq<char>,
    pub tone: ToneEdit,
    pub crop: CropMargins,
    pub rotation: u8,
    pub index: int,
}

impl ExportFrame {
    /// The model of an export frame.
    pub open spec fn model(self) -> ExportFrameModel {
        ExportFrameModel {
            name: self.name@,
            tone: self.tone,
            crop: self.crop,
            rotation: self.rotation,
            index: self.index as int,
        }
    }
}

/// The models of a list of export frames.
pub open spec fn export_frame_models(frames: Seq<ExportFrame>) -> Seq<ExportFrameModel> {
    frames.map_values(|f: ExportFrame| f.model())
}

/// Work for the surroundings.
#[allow(inconsistent_fields)]
#[derive(Debug)]
pub enum Effect {
    /// Write a roll's manifest.
    SaveManifest { dir: String, manifest: RollManifest },
    /// Write the list of roll directories to the configuration.
    PersistConfig { rolls: Vec<String> },
    /// List a roll's frame files and read its manifest.
    LoadFiles { dir: String },
    /// Scan a roll for its library card.
    ScanRoll { dir: String },
    OpenRollPicker,
    FocusSearch,
    /// Wait for the debounce time, then hand the text and serial back.
    SearchTimer { term: String, version: u64 },
    DecodeThumbnail {
        dir: String,
        name: String,
        tone: ToneEdit,
        crop: CropMargins,
        rotation: u8,
        preset: FilmPreset,
        base: BaseConfig,
    },
    DecodeCover { dir: String, name: String, preset: FilmPreset },
    /// Decode a frame for the detail view, its long edge at most `cap`.
    DecodeDetail { dir: String, name: String, cap: u32, preset: FilmPreset, base: BaseConfig },
    PreloadDetail { dir: String, name: String, preset: FilmPreset, base: BaseConfig },
    LoadFrameInfo { dir: String, name: String },
    /// Record a choice in a roll's manifest on disk.
    RecordPreset { dir: String, preset: FilmPreset },
    RecordBaseMode { dir: String, mode: BaseMode },
    RecordDates { dir: String, start: Option<String>, end: Option<String> },
    RecordName { dir: String, name: Option<String> },
    /// Designate a calibration frame in the manifest on disk, unless it has one.
    DesignateDefault { dir: String, name: String },
    /// Drop the calibration from the manifest on disk.
    DropCalibration { dir: String },
    /// Measure the frame that the manifest on disk designates.
    MeasureCalibration { dir: String },
    /// Measure a frame.
    MeasureFrame { dir: String, name: String, preset: FilmPreset },
    /// Work out the zoom cap anew and hold the zoom to it.
    ReclampZoom,
    /// Bring a cell of a grid into view.
    ScrollTo { grid: GridId, index: usize, len: usize, cols: usize },
    OpenExportDialog,
    BeginExport {
        dir: String,
        dest: String,
        options: ExportOptions,
        preset: FilmPreset,
        base: BaseConfig,
        start_date: Option<String>,
        frames: Vec<ExportFrame>,
    },
    /// Tell that an export wrote every frame, with the date it stamped.
    ToastDone { count: usize, dest: String, date: Option<String> },
    /// Tell that an export left frames out that were there already.
    ToastSkipped { count: usize, dest: String, skipped: usize },
    /// Tell that an export failed on some frames.
    ToastFailed { count: usize, failed: usize },
    CloseToast(u64),
    LaunchUrl(String),
    /// Report why a frame could not be decoded.
    ReportDetailFailure { name: String, reason: String },
    CloseWindow,
}

/// What an effect asks for.
#[allow(inconsistent_fields)]
#[verifier::ext_equal]
pub enum EffectModel {
    SaveManifest { dir: Seq<char>, manifest: ManifestModel },
    PersistConfig { rolls: Seq<Seq<char>> },
    LoadFiles { dir: Seq<char> },
    ScanRoll { dir: Seq<char> },
    OpenRollPicker,
    FocusSearch,
    SearchTimer { term: Seq<char>, version: u64 },
    DecodeThumbnail {
        dir: Seq<char>,
        name: Seq<char>,
        tone: ToneEdit,
        crop: CropMargins,
        rotation: u8,
        preset: FilmPreset,
        base: BaseConfig,
    },
    DecodeCover { dir: Seq<char>, name: Seq<char>, preset: FilmPreset },
    DecodeDetail {
        dir: Seq<char>,
        name: Seq<char>,
        cap: u32,
        preset: FilmPreset,
        base: BaseConfig,
    },
    PreloadDetail { dir: Seq<char>, name: Seq<char>, preset: FilmPreset, base: BaseConfig },
    LoadFrameInfo { dir: Seq<char>, name: Seq<char> },
    RecordPreset { dir: Seq<char>, preset: FilmPreset },
    RecordBaseMode { dir: Seq<char>, mode: BaseMode },
    RecordDates { dir: Seq<char>, start: Option<Seq<char>>, end: Option<Seq<char>> },
    RecordName { dir: Seq<char>, name: Option<Seq<char>> },
    DesignateDefault { dir: Seq<char>, name: Seq<char> },
    DropCalibration { dir: Seq<char> },
    MeasureCalibration { dir: Seq<char> },
    MeasureFrame { dir: Seq<char>, name: Seq<char>, preset: FilmPreset },
    ReclampZoom,
    ScrollTo { grid: GridId, index: int, len: int, cols: int },
    OpenExportDialog,
    BeginExport {
        dir: Seq<char>,
        dest: Seq<char>,
        options: ExportOptions,
        preset: FilmPreset,
        base: BaseConfig,
        start_date: Option<Seq<char>>,
        frames: Seq<ExportFrameModel>,
    },
    ToastDone { count: int, dest: Seq<char>, date: Option<Seq<char>> },
    ToastSkipped { count: int, dest: Seq<char>, skipped: int },
    ToastFailed { count: int, failed: int },
    CloseToast(u64),
    LaunchUrl(Seq<char>),
    ReportDetailFailure { name: Seq<char>, reason: Seq<char> },
    CloseWindow,
}

impl Effect {
    /// The model of an effect.
    pub open spec fn model(self) -> EffectModel {
        match self {
            Effect::SaveManifest { dir, manifest } => EffectModel::SaveManifest {
                dir: dir@,
                manifest: manifest.model(),
            },
            Effect::PersistConfig { rolls } => EffectModel::PersistConfig {
                rolls: text::texts(rolls@),
            },
            Effect::LoadFiles { dir } => EffectModel::LoadFiles { dir: dir@ },
            Effect::ScanRoll { dir } => EffectModel::ScanRoll { dir: dir@ },
            Effect::OpenRollPicker => EffectModel::OpenRollPicker,
            Effect::FocusSearch => EffectModel::FocusSearch,
            Effect::SearchTimer { term, version } => EffectModel::SearchTimer {
                term: term@,
                version,
            },
            Effect::DecodeThumbnail { dir, name, tone, crop, rotation, preset, base } => {
                EffectModel::DecodeThumbnail {
                    dir: dir@,
                    name: name@,
                    tone,
                    crop,
                    rotation,
                    preset,
                    base,
                }
            },
            Effect::DecodeCover { dir, name, preset } => EffectModel::DecodeCover {
                dir: dir@,
                name: name@,
                preset,
            },
            Effect::DecodeDetail { dir, name, cap, preset, base } => EffectModel::DecodeDetail {
                dir: dir@,
                name: name@,
                cap,
                preset,
                base,
            },
            Effect::PreloadDetail { dir, name, preset, base } => EffectModel::PreloadDetail {
                dir: dir@,
                name: name@,
                preset,
                base,
            },
            Effect::LoadFrameInfo { dir, name } => EffectModel::LoadFrameInfo {
                dir: dir@,
                name: name@,
            },
            Effect::RecordPreset { dir, preset } => EffectModel::RecordPreset { dir: dir@, preset },
            Effect::RecordBaseMode { dir, mode } => EffectModel::RecordBaseMode { dir: dir@, mode },
            Effect::RecordDates { dir, start, end } => EffectModel::RecordDates {
                dir: dir@,
                start: text::text_of(start),
                end: text::text_of(end),
            },
            Effect::RecordName { dir, name } => EffectModel::RecordName {
                dir: dir@,
                name: text::text_of(name),
            },
            Effect::DesignateDefault { dir, name } => EffectModel::DesignateDefault {
                dir: dir@,
                name: name@,
            },
            Effect::DropCalibration { dir } => EffectModel::DropCalibration { dir: dir@ },
            Effect::MeasureCalibration { dir } => EffectModel::MeasureCalibration { dir: dir@ },
            Effect::MeasureFrame { dir, name, preset } => EffectModel::MeasureFrame {
                dir: dir@,
                name: name@,
                preset,
            },
            Effect::ReclampZoom => EffectModel::ReclampZoom,
            Effect::ScrollTo { grid, index, len, cols } => EffectModel::ScrollTo {
                grid,
                index: index as int,
                len: len as int,
                cols: cols as int,
            },
            Effect::OpenExportDialog => EffectModel::OpenExportDialog,
            Effect::BeginExport { dir, dest, options, preset, base, start_date, frames } => {
                EffectModel::BeginExport {
                    dir: dir@,
                    dest: dest@,
                    options,
                    preset,
                    base,
                    start_date: text::text_of(start_date),
                    frames: export_frame_models(frames@),
                }
            },
            Effect::ToastDone { count, dest, date } => EffectModel::ToastDone {
                count: count as int,
                dest: dest@,
                date: text::text_of(date),
            },
            Effect::ToastSkipped { count, dest, skipped } => EffectModel::ToastSkipped {
                count: count as int,
                dest: dest@,
                skipped: skipped as int,
            },
            Effect::ToastFailed { count, failed } => EffectModel::ToastFailed {
                count: count as int,
                failed: failed as int,
            },
            Effect::CloseToast(id) => EffectModel::CloseToast(id),
            Effect::LaunchUrl(url) => EffectModel::LaunchUrl(url@),
            Effect::ReportDetailFailure { name, reason } => EffectModel::ReportDetailFailure {
                name: name@,
                reason: reason@,
            },
            Effect::CloseWindow => EffectModel::CloseWindow,
        }
    }
}

/// The models of a list of effects.
pub open spec fn effect_models(effects: Seq<Effect>) -> Seq<EffectModel> {
    effects.map_values(|e: Effect| e.model())
}

} // verus!
