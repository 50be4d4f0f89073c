//! Reading rolls from disk: which files are frames, and how paths are spelled.

use curvectrl::edit_manifest::RollManifest;
use curvectrl::exif_writer::build_tiff;
use curvectrl::film::FilmPreset;
use curvectrl::frame_info::load_frame_meta;
use curvectrl::library::Thumb;
use curvectrl::paths::tidy;
use curvectrl::scan::{dirs_to_scan, frame_files, is_frame_file, scanned_roll, DirEntry};

fn entry(name: &str, is_file: bool) -> DirEntry {
    DirEntry { name: name.to_owned(), is_file }
}

#[test]
fn frames_are_the_visible_files_that_are_no_exports() {
    let files = frame_files(vec![
        entry("b.dng", true),
        entry(".film-roll.toml", true),
        entry("a.dng", true),
        entry("a.jpg", true),
        entry("sub", false),
    ]);
    assert_eq!(files, vec!["a.dng".to_owned(), "b.dng".to_owned()]);
    assert!(!is_frame_file(".hidden.dng"));
    assert!(!is_frame_file("x.png"));
    assert!(is_frame_file("x.RAF"));
}

#[test]
fn a_scanned_roll_is_named_by_its_manifest_or_its_directory() {
    let files = vec!["1.dng".to_owned(), "2.dng".to_owned()];
    let mut manifest = RollManifest::default();
    let plain = scanned_roll("/rolls/summer", &files, &manifest);
    assert_eq!(plain.name, "summer");
    assert_eq!(plain.cover.as_deref(), Some("1.dng"));
    assert_eq!(plain.frame_count, 2);
    assert_eq!(plain.thumb, Thumb::Loading);
    manifest.set_name(Some("Rollerskates".to_owned()));
    manifest.set_preset(FilmPreset::TriX);
    let labeled = scanned_roll("/rolls/summer", &[], &manifest);
    assert_eq!(labeled.name, "Rollerskates");
    assert_eq!(labeled.preset, FilmPreset::TriX);
    assert_eq!(labeled.cover, None);
}

#[test]
fn directories_are_scanned_once() {
    let dirs = dirs_to_scan(&[
        "/r/a".to_owned(),
        "/r/b/".to_owned(),
        "/r//a".to_owned(),
        "/r/b".to_owned(),
    ]);
    assert_eq!(dirs, vec!["/r/a".to_owned(), "/r/b".to_owned()]);
}

#[test]
fn paths_are_spelled_plainly() {
    assert_eq!(tidy("/a//b/./c/"), "/a/b/c");
    assert_eq!(tidy("./a/."), "./a");
    assert_eq!(tidy("a/../b"), "a/../b");
    assert_eq!(tidy("//"), "/");
    assert_eq!(tidy(""), "");
}

#[test]
fn metadata_is_read_from_a_container() {
    assert!(load_frame_meta(b"no container").is_none());
    let tiff = build_tiff("2024:05:09 18:24:36", None).unwrap();
    let meta = load_frame_meta(&tiff).unwrap();
    assert_eq!(meta.date.as_deref(), Some("2024-05-09 18:24:36"));
    assert_eq!(meta.make, None);
    assert_eq!(meta.iso, None);
}

#[test]
fn load_roll_prefers_the_manifest_label_over_the_directory_leaf() {
    let mut manifest = RollManifest::default();
    manifest.set_name(Some("Rollerskates".to_owned()));
    let labeled = scanned_roll("/tmp/exposure-app-roll-name", &[], &manifest);
    assert_eq!(labeled.name, "Rollerskates");
    let plain = scanned_roll("/tmp/exposure-app-roll-name", &[], &RollManifest::default());
    assert_eq!(plain.name, "exposure-app-roll-name");
}
