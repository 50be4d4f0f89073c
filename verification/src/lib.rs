//! The core of a film-negative photo library: film stocks and roll manifests,
//! crop windows, library search and navigation, EXIF stamping and export
//! naming, and the application's state machine, each with a contract that is
//! proved of its code.

use vstd::prelude::*;

pub mod calibration;
pub mod config;
pub mod crop;
pub mod data_laws;
pub mod dates;
pub mod detail;
pub mod detail_area;
pub mod detail_laws;
pub mod drawer;
pub mod edit_manifest;
pub mod editing;
pub mod editing_laws;
pub mod effect;
pub mod error;
pub mod exif_writer;
pub mod export;
pub mod export_run;
pub mod exposure_shader;
pub mod film;
pub mod frame_info;
pub mod frame_laws;
pub mod frames;
pub mod keys;
pub mod laws;
pub mod library;
pub mod library_laws;
pub mod library_page;
pub mod logging;
pub mod lru;
pub mod message;
pub mod message_laws;
pub mod names;
pub mod panels;
pub mod paths;
pub mod pumps;
pub mod raster;
pub mod scan;
pub mod seqs;
pub mod single;
pub mod state;
pub mod text;
pub mod update;
pub mod waiting_laws;
pub mod window_laws;
pub mod work_laws;

verus! {

} // verus!
