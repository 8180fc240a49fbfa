//! Pictures as the image server sends them.

use vstd::prelude::*;

verus! {

/// The answer of the image server: the pictures it made, each in base64.
#[derive(Debug)]
pub struct GeneratedImage {
    images: Vec<String>,
}

/// Why the answer of the image server gives no picture.
#[derive(Debug, Clone, Copy, PartialEq, Eq, Structural)]
pub enum ImageError {
    /// The answer holds no picture.
    NoImage,
    /// The first picture is no base64 text.
    NotBase64,
}

/// The bytes that `text` stands for in base64, standard alphabet with
/// padding; `None` where `text` is no such encoding.
pub uninterp spec fn base64_decoded(text: Seq<char>) -> Option<Seq<u8>>;

/// `base64::decode` reads `text` as base64 and gives the bytes, or an error
/// for a text that is none. It goes by the text alone.
#[verifier::external_body]
#[allow(deprecated)]
fn decode_base64(text: &str) -> (bytes: Option<Vec<u8>>)
    ensures
        match bytes {
            Some(b) => base64_decoded(text@) == Some(b@),
            None => base64_decoded(text@) is None,
        },
{
    match base64::decode(text) {
        Ok(bytes) => Some(bytes),
        Err(_) => None,
    }
}

impl View for GeneratedImage {
    type V = Seq<Seq<char>>;

    closed spec fn view(&self) -> Seq<Seq<char>> {
        self.images@.map_values(|image: String| image@)
    }
}

impl GeneratedImage {
    /// An answer that holds `images`.
    pub fn new(images: Vec<String>) -> (answer: GeneratedImage)
        ensures
            answer@ == images@.map_values(|image: String| image@),
    {
        GeneratedImage { images }
    }

    /// The bytes of the first picture.
    pub fn first_image(&self) -> (bytes: Result<Vec<u8>, ImageError>)
        ensures
            match bytes {
                Ok(b) => self@.len() > 0 && base64_decoded(self@[0]) == Some(b@),
                Err(ImageError::NoImage) => self@.len() == 0,
                Err(ImageError::NotBase64) => self@.len() > 0 && base64_decoded(self@[0]) is None,
            },
    {
        if self.images.len() == 0 {
            return Err(ImageError::NoImage);
        }
        match decode_base64(self.images[0].as_str()) {
            Some(bytes) => Ok(bytes),
            None => Err(ImageError::NotBase64),
        }
    }
}

} // verus!
