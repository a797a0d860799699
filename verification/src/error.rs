//! What can go wrong when hiding or recovering a payload.

use vstd::prelude::*;

verus! {

/// The ways in which hiding or recovering a payload fails.
#[derive(Clone, Copy, Debug, PartialEq, Eq, Structural)]
pub enum StegoError {
    /// There are more bits to hide than channel bytes to hide them in.
    CapacityExceeded,
    /// The image is so wide, or has so many pixels, that its RGB samples
    /// cannot be counted or held in one buffer.
    ImageTooLarge,
}

impl StegoError {
    /// The sentence that tells a user of this failure.
    pub open spec fn message_spec(self) -> Seq<char> {
        match self {
            StegoError::CapacityExceeded => "Message is too long to encode in the image"@,
            StegoError::ImageTooLarge => "Image is too large to be read as 8-bit RGB"@,
        }
    }

    /// Gives the sentence that tells a user of this failure.
    pub fn message(&self) -> (text: &'static str)
        ensures
            text@ == self.message_spec(),
    {
        match self {
            StegoError::CapacityExceeded => "Message is too long to encode in the image",
            StegoError::ImageTooLarge => "Image is too large to be read as 8-bit RGB",
        }
    }
}

} // verus!
