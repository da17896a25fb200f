//! The display modes the video RAM can be interpreted in.

use vstd::prelude::*;

verus! {

#[derive(Clone, Copy, Debug, PartialEq, Eq, Structural)]
pub enum VideoMode {
    /// Each half-byte of video RAM is one palette pixel.
    Pixel,
    /// Video RAM holds character cells.
    Text,
}

/// The byte stored in the video-mode memory cell.
pub open spec fn spec_video_mode_id(m: VideoMode) -> u8 {
    match m {
        VideoMode::Pixel => 0x00,
        VideoMode::Text => 0x01,
    }
}

impl VideoMode {
    pub fn to_id(self) -> (r: u8)
        ensures
            r == spec_video_mode_id(self),
    {
        match self {
            VideoMode::Pixel => 0x00,
            VideoMode::Text => 0x01,
        }
    }

    /// Decode the stored byte; unknown values yield `None`.
    pub fn from_id(id: u8) -> (r: Option<VideoMode>)
        ensures
            match r {
                Some(m) => spec_video_mode_id(m) == id,
                None => id > 0x01,
            },
    {
        match id {
            0x00 => Some(VideoMode::Pixel),
            0x01 => Some(VideoMode::Text),
            _ => None,
        }
    }
}

} // verus!
