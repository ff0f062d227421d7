//! The metadata of an episode, the file that holds it and the media file
//! that goes with it.

use vstd::prelude::*;
use crate::dates::{date_on_calendar, is_calendar_date, pub_date_of, publication_stamp};
use crate::error::Error;
use crate::naming::{
    episode_date, episode_id, is_episode_name, lemma_names_end_in_metadata_suffix, match_episode,
};
use crate::order::{is_stable_sort, lemma_sort_map, map_items, sort_by_key};
use crate::paths::{
    companion_path, companion_replaces_the_compound_extension, companion_text, file_name,
    file_name_of, metadata_stem,
};
use crate::text::texts;

verus! {

/// The metadata file of an episode.
#[derive(Debug)]
pub struct InfoFile {
    /// The upload date of the episode, taken from the file's name: the
    /// number that its eight digits spell.
    pub pub_date: u32,
    /// The identifier of the episode, taken from the file's name.
    pub youtube_id: String,
    /// The path of the metadata file.
    pub filepath: String,
}

/// What an `InfoFile` of an episode stands for.
pub struct InfoFileView {
    /// The upload date of the episode.
    pub pub_date: u32,
    /// The identifier of the episode.
    pub youtube_id: Seq<char>,
    /// The path of the metadata file.
    pub filepath: Seq<char>,
}

impl View for InfoFile {
    type V = InfoFileView;

    open spec fn view(&self) -> InfoFileView {
        InfoFileView {
            pub_date: self.pub_date,
            youtube_id: self.youtube_id@,
            filepath: self.filepath@,
        }
    }
}

/// The extension of an episode's media file, which is also its type.
pub open spec fn media_extension() -> Seq<char> {
    "mp4"@
}

/// The extension of an episode's cover image.
pub open spec fn episode_image_extension() -> Seq<char> {
    "png"@
}

/// True when `path` names an episode's metadata file.
pub open spec fn is_episode_path(path: Seq<char>) -> bool {
    is_episode_name(file_name(path))
}

/// The metadata file of an episode that `path` names.
pub open spec fn episode_file(path: Seq<char>) -> InfoFileView {
    InfoFileView {
        pub_date: episode_date(file_name(path)) as u32,
        youtube_id: episode_id(file_name(path)),
        filepath: path,
    }
}

/// The episodes' metadata files among `paths`, in the order of `paths`, each
/// with its upload date as key.
pub open spec fn found_episodes(paths: Seq<Seq<char>>) -> Seq<(u32, InfoFileView)> {
    paths.filter(|path: Seq<char>| is_episode_path(path)).map_values(
        |path: Seq<char>| (episode_file(path).pub_date, episode_file(path)),
    )
}

/// True when the date in the name of the episode's metadata file `path` is a
/// date of the calendar.
pub open spec fn is_dated(path: Seq<char>) -> bool {
    episode_file(path).pub_date <= 99_999_999 && date_on_calendar(
        episode_file(path).pub_date as int,
    )
}

/// True when `found` is what picking the episodes' metadata files among
/// `entries` comes to.
///
/// Where the name of each of them holds a date of the calendar, these are
/// the files, ordered by upload date, earliest first; files of the same date
/// keep the order in which they stand in `entries`; each of them is named as
/// an episode's metadata file. Else the outcome is `MalformedMetadata`,
/// naming the first entry whose date no calendar has.
pub open spec fn is_episode_listing(
    entries: Seq<String>,
    found: Result<Vec<InfoFile>, Error>,
) -> bool {
    match found {
        Ok(files) => {
            &&& forall|i: int|
                0 <= i < entries.len() && is_episode_path(#[trigger] entries[i]@) ==> is_dated(
                    entries[i]@,
                )
            &&& is_stable_sort(found_episodes(texts(entries)), dated(files@))
            &&& forall|k: int|
                0 <= k < files@.len() ==> is_episode_path(#[trigger] files@[k].filepath@)
        },
        Err(error) => exists|i: int|
            {
                &&& 0 <= i < entries.len()
                &&& is_episode_path(#[trigger] entries[i]@)
                &&& !is_dated(entries[i]@)
                &&& forall|j: int|
                    0 <= j < i && is_episode_path(#[trigger] entries[j]@) ==> is_dated(
                        entries[j]@,
                    )
                &&& error.is_malformed(entries[i]@)
            },
    }
}

/// The metadata files `files`, each with its upload date as key.
pub open spec fn dated(files: Seq<InfoFile>) -> Seq<(u32, InfoFileView)> {
    files.map_values(|file: InfoFile| (file.pub_date, file@))
}

/// The media file and the cover image of an episode lie beside its metadata
/// file, under the same name but for the extension: `mp4` and `png` stand
/// where the metadata file has `info.json`.
pub proof fn episode_files_lie_together(path: Seq<char>)
    requires
        is_episode_path(path),
    ensures
        companion_text(path, media_extension()) == metadata_stem(path) + seq!['.']
            + media_extension(),
        companion_text(path, episode_image_extension()) == metadata_stem(path) + seq!['.']
            + episode_image_extension(),
{
    reveal_strlit("mp4");
    reveal_strlit("png");
    lemma_names_end_in_metadata_suffix(file_name(path));
    companion_replaces_the_compound_extension(path, media_extension());
    companion_replaces_the_compound_extension(path, episode_image_extension());
}

/// The media file of an episode.
#[derive(Debug)]
pub struct Enclosure {
    /// The path of the media file.
    pub video_filepath: String,
    /// The size of the media file in bytes.
    pub video_filelength: u64,
    /// The type of the media file.
    pub video_filetype: String,
}

/// What an `Enclosure` stands for.
pub struct EnclosureView {
    /// The path of the media file.
    pub video_filepath: Seq<char>,
    /// The size of the media file in bytes.
    pub video_filelength: u64,
    /// The type of the media file.
    pub video_filetype: Seq<char>,
}

impl View for Enclosure {
    type V = EnclosureView;

    open spec fn view(&self) -> EnclosureView {
        EnclosureView {
            video_filepath: self.video_filepath@,
            video_filelength: self.video_filelength,
            video_filetype: self.video_filetype@,
        }
    }
}

/// True when `parsed` is what joining the metadata `info`, read from the
/// file `filepath`, with the media file of size `video_filelength` comes to:
/// the metadata, the media file beside the metadata file, and the path of
/// the cover image; or `MissingEnclosure`, naming the media file, exactly
/// where there is no size.
pub open spec fn is_parsed(
    filepath: Seq<char>,
    info: Info,
    video_filelength: Option<u64>,
    parsed: Result<(Info, Enclosure, String), Error>,
) -> bool {
    match parsed {
        Ok((same, enclosure, image_filepath)) => same == info && video_filelength == Some(
            enclosure.video_filelength,
        ) && enclosure.video_filepath@ == companion_text(filepath, media_extension())
            && enclosure.video_filetype@ == media_extension() && image_filepath@
            == companion_text(filepath, episode_image_extension()),
        Err(error) => video_filelength is None && error.is_missing_enclosure(
            companion_text(filepath, media_extension()),
        ),
    }
}

impl InfoFile {
    /// Reads `path` as the path of an episode's metadata file. Returns `None`
    /// where the file name does not follow the naming convention. The eight
    /// digits are taken as they stand: `available_episodes` holds them
    /// against the calendar.
    pub fn from_path(path: &str) -> (file: Option<InfoFile>)
        ensures
            match file {
                Some(file) => is_episode_path(path@) && file@ == episode_file(path@),
                None => !is_episode_path(path@),
            },
    {
        let name = file_name_of(path);
        match match_episode(name.as_str()) {
            Some((pub_date, youtube_id)) => Some(
                InfoFile { pub_date, youtube_id, filepath: String::from_str(path) },
            ),
            None => None,
        }
    }

    /// Makes a second value that stands for the same file.
    pub fn duplicate(&self) -> (copy: InfoFile)
        ensures
            copy@ == self@,
    {
        InfoFile {
            pub_date: self.pub_date,
            youtube_id: self.youtube_id.clone(),
            filepath: self.filepath.clone(),
        }
    }

    /// Returns the path of the episode's media file: the metadata file's
    /// path with its last two extensions replaced by `mp4`.
    pub fn video_filepath(&self) -> (path: String)
        ensures
            path@ == companion_text(self.filepath@, media_extension()),
    {
        companion_path(self.filepath.as_str(), "mp4")
    }

    /// Returns the path of the episode's cover image: the metadata file's
    /// path with its last two extensions replaced by `png`.
    pub fn image_filepath(&self) -> (path: String)
        ensures
            path@ == companion_text(self.filepath@, episode_image_extension()),
    {
        companion_path(self.filepath.as_str(), "png")
    }

    /// Joins the metadata read from this file with the episode's media file
    /// and the path of its cover image.
    ///
    /// `video_filelength` is the size of the media file, or `None` where the
    /// file is missing or its size cannot be read; the outcome is then
    /// `MissingEnclosure`, naming the media file.
    pub fn parse(&self, info: Info, video_filelength: Option<u64>) -> (parsed: Result<
        (Info, Enclosure, String),
        Error,
    >)
        ensures
            is_parsed(self.filepath@, info, video_filelength, parsed),
    {
        let video_filepath = self.video_filepath();
        match video_filelength {
            Some(length) => {
                let enclosure = Enclosure {
                    video_filepath,
                    video_filelength: length,
                    video_filetype: String::from_str("mp4"),
                };
                Ok((info, enclosure, self.image_filepath()))
            },
            None => Err(Error::MissingEnclosure(video_filepath)),
        }
    }
}

/// Picks the episodes' metadata files among `entries`, the paths of what a
/// directory holds, and orders them by upload date, earliest first. Files of
/// the same date keep the order in which they stand in `entries`. A
/// directory without episodes gives an empty list.
///
/// Fails with `MalformedMetadata`, naming the file, at the first entry that
/// is named as an episode's metadata file with a date that no calendar has.
pub fn available_episodes(entries: &Vec<String>) -> (found: Result<Vec<InfoFile>, Error>)
    ensures
        is_episode_listing(entries@, found),
{
    let ghost paths = texts(entries@);
    let ghost is_episode = |path: Seq<char>| is_episode_path(path);
    let ghost keyed_file = |path: Seq<char>| (episode_file(path).pub_date, episode_file(path));
    let ghost model = |file: InfoFile| file@;
    let mut found: Vec<(u32, InfoFile)> = Vec::new();
    let mut i: usize = 0;
    proof {
        assert(paths.take(0).filter(is_episode) =~= Seq::<Seq<char>>::empty()) by {
            reveal(Seq::filter);
        }
        assert(map_items(found@, model) =~= found_episodes(paths.take(0)));
    }
    while i < entries.len()
        invariant
            i <= entries@.len(),
            paths == texts(entries@),
            is_episode == |path: Seq<char>| is_episode_path(path),
            keyed_file == |path: Seq<char>| (episode_file(path).pub_date, episode_file(path)),
            model == |file: InfoFile| file@,
            map_items(found@, model) == found_episodes(paths.take(i as int)),
            forall|j: int|
                0 <= j < i && is_episode_path(#[trigger] entries@[j]@) ==> is_dated(entries@[j]@),
            forall|k: int|
                0 <= k < found@.len() ==> (#[trigger] found@[k]).0 == found@[k].1.pub_date
                    && is_episode_path(found@[k].1.filepath@),
        decreases entries@.len() - i,
    {
        let ghost before = found@;
        let ghost path = entries@[i as int]@;
        proof {
            assert(paths.take(i + 1) =~= paths.take(i as int).push(path));
            paths.take(i as int).lemma_filter_push(path, is_episode);
        }
        match InfoFile::from_path(entries[i].as_str()) {
            Some(file) => {
                if !is_calendar_date(file.pub_date) {
                    return Err(Error::MalformedMetadata(entries[i].clone()));
                }
                found.push((file.pub_date, file));
                proof {
                    let kept = paths.take(i as int).filter(is_episode);
                    assert(kept.push(path).map_values(keyed_file) =~= kept.map_values(
                        keyed_file,
                    ).push(keyed_file(path)));
                    assert(map_items(found@, model) =~= map_items(before, model).push(
                        (file.pub_date, file@),
                    ));
                }
            },
            None => {},
        }
        i += 1;
    }
    assert(paths.take(entries@.len() as int) =~= paths);
    let ghost unsorted = found@;
    let sorted = sort_by_key(found);
    proof {
        lemma_sort_map(unsorted, sorted@, model);
        assert forall|k: int| 0 <= k < sorted@.len() implies (#[trigger] sorted@[k]).0
            == sorted@[k].1.pub_date && is_episode_path(sorted@[k].1.filepath@) by {
            broadcast use vstd::seq_lib::group_to_multiset_ensures;

            assert(sorted@.to_multiset().contains(sorted@[k]));
            assert(unsorted.contains(sorted@[k]));
        }
    }
    let mut files: Vec<InfoFile> = Vec::new();
    let ghost ordered = sorted@;
    for entry in it: sorted
        invariant
            it.seq() == ordered,
            files@.len() == it.index(),
            forall|k: int| 0 <= k < files@.len() ==> #[trigger] files@[k] == it.seq()[k].1,
    {
        files.push(entry.1);
    }
    assert(dated(files@) =~= map_items(ordered, model));
    assert forall|k: int| 0 <= k < files@.len() implies is_episode_path(
        #[trigger] files@[k].filepath@,
    ) by {
        assert(files@[k] == ordered[k].1);
    }
    Ok(files)
}

/// The content of an episode's metadata file.
#[derive(Debug)]
pub struct Info {
    /// The episode's identifier, unique within its channel.
    pub guid: String,
    /// The date on which the episode was uploaded, as eight digits.
    pub upload_date: String,
    /// The episode's place in the playlist; the feed orders its items by it.
    pub playlist_index: u32,
    /// The episode's title; it may hold markup.
    pub title: String,
    /// The address of the episode's web page.
    pub link: String,
    /// The episode's description; it may hold markup.
    pub description: String,
    /// The episode's author.
    pub author: String,
    /// The episode's duration in whole seconds.
    pub duration_seconds: u32,
}

/// What an `Info` of an episode stands for.
pub struct InfoView {
    /// The episode's identifier.
    pub guid: Seq<char>,
    /// The date on which the episode was uploaded.
    pub upload_date: Seq<char>,
    /// The episode's place in the playlist.
    pub playlist_index: u32,
    /// The episode's title.
    pub title: Seq<char>,
    /// The address of the episode's web page.
    pub link: Seq<char>,
    /// The episode's description.
    pub description: Seq<char>,
    /// The episode's author.
    pub author: Seq<char>,
    /// The episode's duration in whole seconds.
    pub duration_seconds: u32,
}

impl View for Info {
    type V = InfoView;

    open spec fn view(&self) -> InfoView {
        InfoView {
            guid: self.guid@,
            upload_date: self.upload_date@,
            playlist_index: self.playlist_index,
            title: self.title@,
            link: self.link@,
            description: self.description@,
            author: self.author@,
            duration_seconds: self.duration_seconds,
        }
    }
}

impl Info {
    /// Makes a second value that stands for the same metadata.
    pub fn duplicate(&self) -> (copy: Info)
        ensures
            copy@ == self@,
    {
        Info {
            guid: self.guid.clone(),
            upload_date: self.upload_date.clone(),
            playlist_index: self.playlist_index,
            title: self.title.clone(),
            link: self.link.clone(),
            description: self.description.clone(),
            author: self.author.clone(),
            duration_seconds: self.duration_seconds,
        }
    }

    /// Writes the time stamp of the episode's publication. Fails with
    /// `MalformedMetadata` exactly where the upload date is not eight digits
    /// or names a day that no calendar has.
    pub fn pub_date(&self) -> (outcome: Result<String, Error>)
        ensures
            match outcome {
                Ok(text) => publication_stamp(self.upload_date@) == Some(text@),
                Err(error) => publication_stamp(self.upload_date@) is None && error.is_malformed(
                    self.upload_date@,
                ),
            },
    {
        pub_date_of(self.upload_date.as_str())
    }
}

} // verus!
