//! The ways in which converting a channel directory can fail.

use vstd::prelude::*;

verus! {

/// Declares `image::ImageError` for use in proved code, as a value that is
/// carried along and never looked into.
#[verifier::external_type_specification]
#[verifier::external_body]
pub struct ExImageError(image::ImageError);

/// Declares `hard_xml::XmlError` for use in proved code, as a value that is
/// carried along and never looked into.
#[verifier::external_type_specification]
#[verifier::external_body]
pub struct ExXmlError(hard_xml::XmlError);

/// Why a cover image could not be normalized.
#[derive(Debug)]
pub enum ImageFault {
    /// The file's extension names no image format that can be read and written here.
    UnknownFormat(String),
    /// The image or the square to fill has no pixels: a side is zero.
    Empty,
    /// The image does not hold three bytes for each of its pixels.
    Buffer,
    /// The image is too large: resampling it takes a buffer that no vector
    /// can hold.
    TooLarge,
    /// The image could not be decoded or encoded.
    Codec(image::ImageError),
}

/// A failure that ends the conversion of one channel directory.
#[derive(Debug)]
pub enum Error {
    /// The directory, named here, holds no channel metadata file.
    MissingChannelMetadata(String),
    /// The directory, named here, holds more than one channel metadata file.
    AmbiguousChannelMetadata(String),
    /// A metadata file does not hold what it must; the text says what is wrong.
    MalformedMetadata(String),
    /// The media file of an episode, named here, is missing or its size cannot be read.
    MissingEnclosure(String),
    /// A cover image could not be normalized.
    ImageError(ImageFault),
    /// The file, named here, does not lie under the data root.
    PathOutsideDataRoot(String),
    /// The writer of XML reported a fault. Writing a feed into memory gives
    /// none.
    XmlRenderError(hard_xml::XmlError),
    /// A file or a directory could not be read or written; the text says which and why.
    IoError(String),
}

impl Error {
    /// True when this error says that the directory `dir` holds no channel metadata file.
    pub open spec fn is_missing_channel(self, dir: Seq<char>) -> bool {
        self matches Error::MissingChannelMetadata(named) && named@ == dir
    }

    /// True when this error says that the directory `dir` holds several channel metadata files.
    pub open spec fn is_ambiguous_channel(self, dir: Seq<char>) -> bool {
        self matches Error::AmbiguousChannelMetadata(named) && named@ == dir
    }

    /// True when this error says that metadata is malformed, with `what` as its text.
    pub open spec fn is_malformed(self, what: Seq<char>) -> bool {
        self matches Error::MalformedMetadata(text) && text@ == what
    }

    /// True when this error says that the media file `path` is missing.
    pub open spec fn is_missing_enclosure(self, path: Seq<char>) -> bool {
        self matches Error::MissingEnclosure(named) && named@ == path
    }

    /// True when this error says that the extension of the image file `path` names no format.
    pub open spec fn is_unknown_format(self, path: Seq<char>) -> bool {
        self matches Error::ImageError(ImageFault::UnknownFormat(named)) && named@ == path
    }

    /// True when this error says that the file `path` does not lie under the data root.
    pub open spec fn is_outside_root(self, path: Seq<char>) -> bool {
        self matches Error::PathOutsideDataRoot(named) && named@ == path
    }
}

} // verus!
