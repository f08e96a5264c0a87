//! What a caller asks of one compression.

use vstd::prelude::*;

verus! {

/// The requested quality, size limits and modes of a compression. A record
/// is never changed once made; every compression gets its own copy.
#[derive(Clone, Copy, Debug)]
pub struct CompressOptions {
    /// Quality from 1 (smallest file) to 100 (best picture). A value outside
    /// that range is not refused: the format policy holds the result within
    /// the bounds of the format's own scale.
    pub quality: u32,
    /// The greatest width wanted, in pixels.
    pub max_width: Option<u32>,
    /// The greatest height wanted, in pixels.
    pub max_height: Option<u32>,
    /// Whether scaling keeps the picture's proportions; `None` means yes.
    pub maintain_aspect_ratio: Option<bool>,
    /// Whether to ask for lossless coding where the format has it; `None`
    /// means no.
    pub lossless: Option<bool>,
}

impl CompressOptions {
    /// Whether scaling keeps the picture's proportions.
    pub open spec fn keeps_ratio(self) -> bool {
        self.maintain_aspect_ratio != Some(false)
    }

    /// Whether lossless coding is asked for.
    pub open spec fn wants_lossless(self) -> bool {
        self.lossless == Some(true)
    }

    /// Whether scaling keeps the picture's proportions: yes unless
    /// `maintain_aspect_ratio` says no.
    pub fn keeps_aspect_ratio(&self) -> (r: bool)
        ensures
            r == self.keeps_ratio(),
    {
        match self.maintain_aspect_ratio {
            Some(keep) => keep,
            None => true,
        }
    }

    /// Whether lossless coding is asked for: no unless `lossless` says yes.
    pub fn is_lossless(&self) -> (r: bool)
        ensures
            r == self.wants_lossless(),
    {
        match self.lossless {
            Some(lossless) => lossless,
            None => false,
        }
    }
}

} // verus!
