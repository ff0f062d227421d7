//! The metadata of a channel and the file that holds it.

use vstd::prelude::*;
use crate::dates::{pub_date_of, publication_stamp};
use crate::error::Error;
use crate::naming::{
    channel_id, is_channel_name, lemma_names_end_in_metadata_suffix, match_channel,
};
use crate::paths::{
    companion_path, companion_replaces_the_compound_extension, companion_text, file_name,
    file_name_of, metadata_stem,
};

verus! {

/// The metadata file of a channel.
#[derive(Debug)]
pub struct InfoFile {
    /// The identifier of the channel, taken from the file's name.
    pub youtube_id: String,
    /// The path of the metadata file.
    pub filepath: String,
}

/// What an `InfoFile` of a channel stands for.
pub struct InfoFileView {
    /// The identifier of the channel.
    pub youtube_id: Seq<char>,
    /// The path of the metadata file.
    pub filepath: Seq<char>,
}

impl View for InfoFile {
    type V = InfoFileView;

    open spec fn view(&self) -> InfoFileView {
        InfoFileView { youtube_id: self.youtube_id@, filepath: self.filepath@ }
    }
}

/// The extension of a channel's cover image.
pub open spec fn channel_image_extension() -> Seq<char> {
    "jpg"@
}

/// True when `path` names a channel's metadata file.
pub open spec fn is_channel_path(path: Seq<char>) -> bool {
    is_channel_name(file_name(path))
}

/// The metadata file of a channel that `path` names.
pub open spec fn channel_file(path: Seq<char>) -> InfoFileView {
    InfoFileView { youtube_id: channel_id(file_name(path)), filepath: path }
}

/// The cover image of a channel lies beside its metadata file, under the
/// same name but for the extension: `jpg` stands where the metadata file has
/// `info.json`.
pub proof fn channel_files_lie_together(path: Seq<char>)
    requires
        is_channel_path(path),
    ensures
        companion_text(path, channel_image_extension()) == metadata_stem(path) + seq!['.']
            + channel_image_extension(),
{
    reveal_strlit("jpg");
    lemma_names_end_in_metadata_suffix(file_name(path));
    companion_replaces_the_compound_extension(path, channel_image_extension());
}

impl InfoFile {
    /// Reads `path` as the path of a channel's metadata file. Returns `None`
    /// where the file name does not follow the naming convention.
    pub fn from_path(path: &str) -> (file: Option<InfoFile>)
        ensures
            match file {
                Some(file) => is_channel_path(path@) && file@ == channel_file(path@),
                None => !is_channel_path(path@),
            },
    {
        let name = file_name_of(path);
        match match_channel(name.as_str()) {
            Some(youtube_id) => Some(InfoFile { youtube_id, filepath: String::from_str(path) }),
            None => None,
        }
    }

    /// Returns the path of the channel's cover image: the metadata file's
    /// path with its last two extensions replaced by `jpg`.
    pub fn image_filepath(&self) -> (path: String)
        ensures
            path@ == companion_text(self.filepath@, channel_image_extension()),
    {
        companion_path(self.filepath.as_str(), "jpg")
    }

    /// Pairs the metadata read from this file with the path of the channel's
    /// cover image.
    pub fn parse(&self, info: Info) -> (parsed: (Info, String))
        ensures
            parsed.0 == info,
            parsed.1@ == companion_text(self.filepath@, channel_image_extension()),
    {
        let image_filepath = self.image_filepath();
        (info, image_filepath)
    }
}

/// True when `found` is what picking the channel's metadata file among
/// `entries` comes to: the one entry that names such a file, where there is
/// exactly one; `MissingChannelMetadata` where there is none; and
/// `AmbiguousChannelMetadata` where there are two or more. Both errors name
/// the directory `dirpath`.
pub open spec fn is_channel_pick(
    dirpath: Seq<char>,
    entries: Seq<String>,
    found: Result<InfoFile, Error>,
) -> bool {
    match found {
        Ok(file) => exists|i: int|
            0 <= i < entries.len() && is_channel_path(#[trigger] entries[i]@) && file@
                == channel_file(entries[i]@) && forall|j: int|
                0 <= j < entries.len() && j != i ==> !is_channel_path(#[trigger] entries[j]@),
        Err(error) => if forall|j: int|
            0 <= j < entries.len() ==> !is_channel_path(#[trigger] entries[j]@) {
            error.is_missing_channel(dirpath)
        } else {
            error.is_ambiguous_channel(dirpath) && exists|i: int, j: int|
                0 <= i < j < entries.len() && is_channel_path(#[trigger] entries[i]@)
                    && is_channel_path(#[trigger] entries[j]@)
        },
    }
}

/// Picks the channel's metadata file among `entries`, the paths of what the
/// directory `dirpath` holds.
///
/// Exactly one entry must name a channel's metadata file, and that one is
/// returned. With none the outcome is `MissingChannelMetadata`, with two or
/// more `AmbiguousChannelMetadata`; both errors name `dirpath`.
pub fn available_channel(dirpath: &str, entries: &Vec<String>) -> (found: Result<InfoFile, Error>)
    ensures
        is_channel_pick(dirpath@, entries@, found),
{
    let mut first: Option<InfoFile> = None;
    let ghost mut first_at: int = -1;
    let mut i: usize = 0;
    while i < entries.len()
        invariant
            i <= entries@.len(),
            match first {
                Some(file) => 0 <= first_at < i && is_channel_path(entries@[first_at]@) && file@
                    == channel_file(entries@[first_at]@),
                None => first_at == -1,
            },
            forall|j: int|
                0 <= j < i && j != first_at ==> !is_channel_path(#[trigger] entries@[j]@),
        decreases entries@.len() - i,
    {
        match InfoFile::from_path(entries[i].as_str()) {
            Some(file) => {
                if first.is_some() {
                    assert(is_channel_path(entries@[first_at]@));
                    assert(is_channel_path(entries@[i as int]@));
                    return Err(Error::AmbiguousChannelMetadata(String::from_str(dirpath)));
                }
                first = Some(file);
                proof {
                    first_at = i as int;
                }
            },
            None => {},
        }
        i += 1;
    }
    match first {
        Some(file) => {
            assert(is_channel_path(entries@[first_at]@));
            Ok(file)
        },
        None => Err(Error::MissingChannelMetadata(String::from_str(dirpath))),
    }
}

/// The content of a channel's metadata file.
#[derive(Debug)]
pub struct Info {
    /// The date on which the channel last changed, as eight digits.
    pub upload_date: String,
    /// The channel's title.
    pub title: String,
    /// The channel's description; it may hold markup.
    pub description: String,
    /// The address of the channel's web page.
    pub link: String,
    /// The channel's author.
    pub author: String,
}

/// What an `Info` of a channel stands for.
pub struct InfoView {
    /// The date on which the channel last changed.
    pub upload_date: Seq<char>,
    /// The channel's title.
    pub title: Seq<char>,
    /// The channel's description.
    pub description: Seq<char>,
    /// The address of the channel's web page.
    pub link: Seq<char>,
    /// The channel's author.
    pub author: Seq<char>,
}

impl View for Info {
    type V = InfoView;

    open spec fn view(&self) -> InfoView {
        InfoView {
            upload_date: self.upload_date@,
            title: self.title@,
            description: self.description@,
            link: self.link@,
            author: self.author@,
        }
    }
}

/// The language that every feed declares.
pub open spec fn feed_language() -> Seq<char> {
    "en"@
}

/// The category that every feed declares.
pub open spec fn feed_category() -> Seq<char> {
    "Technology & Science"@
}

/// The generator that every feed declares.
pub open spec fn feed_generator() -> Seq<char> {
    "ytdlp"@
}

/// The mark that every feed and every item carries: no explicit content.
pub open spec fn feed_explicit() -> Seq<char> {
    "false"@
}

/// The type that every feed declares.
pub open spec fn feed_type() -> Seq<char> {
    "Serial"@
}

impl Info {
    /// Writes the time stamp of the channel's publication. Fails with
    /// `MalformedMetadata` exactly where the date of the last change is not
    /// eight digits or names a day that no calendar has.
    pub fn pub_date(&self) -> (outcome: Result<String, Error>)
        ensures
            match outcome {
                Ok(text) => publication_stamp(self.upload_date@) == Some(text@),
                Err(error) => publication_stamp(self.upload_date@) is None && error.is_malformed(
                    self.upload_date@,
                ),
            },
    {
        pub_date_of(self.upload_date.as_str())
    }

    /// Returns the language of the feed.
    pub fn language(&self) -> (text: &'static str)
        ensures
            text@ == feed_language(),
    {
        "en"
    }

    /// Returns the category of the feed.
    pub fn category(&self) -> (text: &'static str)
        ensures
            text@ == feed_category(),
    {
        "Technology & Science"
    }

    /// Returns the generator of the feed.
    pub fn generator(&self) -> (text: &'static str)
        ensures
            text@ == feed_generator(),
    {
        "ytdlp"
    }

    /// Returns the mark for explicit content.
    pub fn explicit_content(&self) -> (text: &'static str)
        ensures
            text@ == feed_explicit(),
    {
        "false"
    }

    /// Returns the type of the channel.
    pub fn channel_type(&self) -> (text: &'static str)
        ensures
            text@ == feed_type(),
    {
        "Serial"
    }
}

} // verus!
