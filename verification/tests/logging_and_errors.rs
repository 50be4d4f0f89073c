//! Log thresholds and error texts.

use curvectrl::error::FrameError;
use curvectrl::logging::{enabled, parse_level, scopes_from_env, LevelFilter};

#[test]
fn levels_are_read_in_any_case() {
    assert_eq!(parse_level("TRACE"), Some(LevelFilter::Trace));
    assert_eq!(parse_level("Debug"), Some(LevelFilter::Debug));
    assert_eq!(parse_level("info"), Some(LevelFilter::Info));
    assert_eq!(parse_level("warn"), Some(LevelFilter::Warn));
    assert_eq!(parse_level("error"), Some(LevelFilter::Error));
    assert_eq!(parse_level("off"), None);
}

#[test]
fn only_own_errors_are_logged_by_default() {
    let scopes = scopes_from_env(false, false, None);
    assert_eq!(scopes, (LevelFilter::Error, LevelFilter::Off));
    assert!(enabled(scopes, "curvectrl::app", LevelFilter::Error));
    assert!(!enabled(scopes, "curvectrl::app", LevelFilter::Warn));
    assert!(!enabled(scopes, "wgpu", LevelFilter::Error));
}

#[test]
fn the_environment_raises_thresholds() {
    assert_eq!(
        scopes_from_env(true, false, None),
        (LevelFilter::Trace, LevelFilter::Off)
    );
    assert_eq!(
        scopes_from_env(false, true, None),
        (LevelFilter::Trace, LevelFilter::Off)
    );
    assert_eq!(
        scopes_from_env(false, false, Some("debug")),
        (LevelFilter::Debug, LevelFilter::Debug)
    );
    assert_eq!(
        scopes_from_env(false, false, Some("curvectrl=info")),
        (LevelFilter::Info, LevelFilter::Off)
    );
    assert_eq!(
        scopes_from_env(false, false, Some("wgpu=info")),
        (LevelFilter::Error, LevelFilter::Off)
    );
    // A level that is none leaves our own threshold, for every scope.
    assert_eq!(
        scopes_from_env(false, false, Some("loud")),
        (LevelFilter::Error, LevelFilter::Error)
    );
}

#[test]
fn every_error_has_its_sentence() {
    let decode = FrameError::Decode {
        path: "/a/b.dng".to_owned(),
        message: "no camera".to_owned(),
    };
    assert_eq!(decode.describe(), "failed to decode /a/b.dng: no camera");
    assert_eq!(
        FrameError::ShortSamples.describe(),
        "decode produced too few samples for the pixel count"
    );
    assert_eq!(FrameError::ThreadPanic.describe(), "decode thread panicked");
    let export = FrameError::Export { message: "disk full".to_owned() };
    assert_eq!(export.describe(), "export failed: disk full");
    assert_eq!(FrameError::Meta.describe(), "failed to parse frame metadata");
}
