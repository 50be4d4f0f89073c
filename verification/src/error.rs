//! The library's single error type. It carries human-readable detail rather
//! than a chain of causes.

use vstd::prelude::*;

verus! {

/// A failure in the RAW-to-image pipeline, an export, or a frame-metadata read.
#[derive(Debug, Clone, PartialEq, Eq)]
pub enum FrameError {
    /// The RAW decoder could not decode the file.
    Decode {
        /// The file that could not be decoded.
        path: String,
        /// The decoder's error text.
        message: String,
    },
    /// The decode produced too few (or degenerate) samples for its dimensions.
    ShortSamples,
    /// A background decode thread panicked.
    ThreadPanic,
    /// An export encode or file-write failure.
    Export {
        /// Human-readable reason.
        message: String,
    },
    /// The frame's EXIF or dimensions could not be parsed.
    Meta,
}

impl FrameError {
    /// The text of the error, over its fields.
    pub open spec fn text(self) -> Seq<char> {
        match self {
            FrameError::Decode { path, message } => "failed to decode "@ + path@ + ": "@ + message@,
            FrameError::ShortSamples => "decode produced too few samples for the pixel count"@,
            FrameError::ThreadPanic => "decode thread panicked"@,
            FrameError::Export { message } => "export failed: "@ + message@,
            FrameError::Meta => "failed to parse frame metadata"@,
        }
    }

    /// The sentence that is logged for this error.
    pub fn describe(&self) -> (r: String)
        ensures
            r@ == self.text(),
    {
        match self {
            FrameError::Decode { path, message } => {
                let mut out: String = "failed to decode ".to_owned();
                out.push_str(path.as_str());
                out.push_str(": ");
                out.push_str(message.as_str());
                out
            },
            FrameError::ShortSamples => {
                "decode produced too few samples for the pixel count".to_owned()
            },
            FrameError::ThreadPanic => "decode thread panicked".to_owned(),
            FrameError::Export { message } => {
                let mut out: String = "export failed: ".to_owned();
                out.push_str(message.as_str());
                out
            },
            FrameError::Meta => "failed to parse frame metadata".to_owned(),
        }
    }
}

} // verus!
