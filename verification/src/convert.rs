//! From the metadata of a channel directory to its feed.

use vstd::prelude::*;
use crate::dates::publication_stamp;
use crate::error::Error;
use crate::info;
use crate::info::channel::{feed_category, feed_explicit, feed_generator, feed_language, feed_type};
use crate::info::episode::{episode_image_extension, media_extension};
use crate::paths::companion_text;
use crate::order::{
    distinct_keys, is_stable_sort, keyed, lemma_distinct_arrivals_agree, lemma_sort_map,
    map_items, sort_by_key, sort_ignores_arrival,
};
use crate::rss;
use crate::rss::channel::episode_views;
use crate::paths::{
    file_name, lemma_last_index_append, lemma_last_index_is, lemma_last_index_of, name_start,
    name_start_of, stem_end, stem_end_of,
};
use crate::text::{
    chars_of, decimal, decimal_text, has_prefix, matches_at, same_text, slice_text, texts,
};

verus! {

/// Side length, in pixels, of every normalized cover image.
pub const TARGET_SIZE: u32 = 1400;

/// The name of the one directory under the data root that is no channel.
pub open spec fn cache_name() -> Seq<char> {
    "Cache"@
}

/// One entry of a directory listing.
#[derive(Debug)]
pub struct Entry {
    /// The path of the entry.
    pub path: String,
    /// Whether the entry is a directory.
    pub is_dir: bool,
}

/// True when `entry` is a channel directory: a directory whose name is not `Cache`.
pub open spec fn is_channel_directory(entry: Entry) -> bool {
    entry.is_dir && file_name(entry.path@) != cache_name()
}

/// The paths of the channel directories among `entries`, in the order of `entries`.
pub open spec fn channel_directories(entries: Seq<Entry>) -> Seq<Seq<char>> {
    entries.filter(|entry: Entry| is_channel_directory(entry)).map_values(
        |entry: Entry| entry.path@,
    )
}

/// Lists the channel directories under the data root: of `entries`, what the
/// data root holds, those that are directories and are not named `Cache`, in
/// the order in which they stand.
pub fn available_directories(entries: &Vec<Entry>) -> (directories: Vec<String>)
    ensures
        texts(directories@) == channel_directories(entries@),
{
    let ghost is_channel = |entry: Entry| is_channel_directory(entry);
    let ghost path_of = |entry: Entry| entry.path@;
    let cache = chars_of("Cache");
    let mut directories: Vec<String> = Vec::new();
    let mut i: usize = 0;
    proof {
        assert(entries@.take(0).filter(is_channel) =~= Seq::<Entry>::empty()) by {
            reveal(Seq::filter);
        }
        assert(texts(directories@) =~= channel_directories(entries@.take(0)));
    }
    while i < entries.len()
        invariant
            i <= entries@.len(),
            cache@ == cache_name(),
            is_channel == |entry: Entry| is_channel_directory(entry),
            path_of == |entry: Entry| entry.path@,
            texts(directories@) == channel_directories(entries@.take(i as int)),
        decreases entries@.len() - i,
    {
        let ghost before = directories@;
        let entry = &entries[i];
        proof {
            assert(entries@.take(i + 1) =~= entries@.take(i as int).push(*entry));
            entries@.take(i as int).lemma_filter_push(*entry, is_channel);
        }
        if entry.is_dir {
            let path = chars_of(entry.path.as_str());
            let start = name_start_of(&path);
            let name = chars_of(slice_text(entry.path.as_str(), start, path.len()).as_str());
            if !same_text(&name, &cache) {
                directories.push(entry.path.clone());
                proof {
                    let kept = entries@.take(i as int).filter(is_channel);
                    assert(kept.push(*entry).map_values(path_of) =~= kept.map_values(path_of).push(
                        entry.path@,
                    ));
                    assert(texts(directories@) =~= texts(before).push(entry.path@));
                }
            }
        }
        i += 1;
    }
    assert(entries@.take(entries@.len() as int) =~= entries@);
    directories
}

/// `text` without the separators that it begins with.
pub open spec fn trim_separators(text: Seq<char>) -> Seq<char>
    decreases text.len(),
{
    if text.len() > 0 && text[0] == '/' {
        trim_separators(text.drop_first())
    } else {
        text
    }
}

/// True when the file `filepath` lies under the directory `base_dir`:
/// `filepath` begins with `base_dir`, and a component ends where `base_dir` ends.
pub open spec fn is_under(base_dir: Seq<char>, filepath: Seq<char>) -> bool {
    has_prefix(filepath, base_dir) && (base_dir.len() == 0 || base_dir.last() == '/'
        || filepath.len() == base_dir.len() || filepath[base_dir.len() as int] == '/')
}

/// What is left of `filepath` without the directory `base_dir` in front of
/// it, and without the separators between the two.
pub open spec fn relative_part(base_dir: Seq<char>, filepath: Seq<char>) -> Seq<char> {
    trim_separators(filepath.subrange(base_dir.len() as int, filepath.len() as int))
}

/// The address `base_url` followed by the relative path `rest`, with one
/// separator between them unless `base_url` is empty or ends in one.
pub open spec fn joined(base_url: Seq<char>, rest: Seq<char>) -> Seq<char> {
    if base_url.len() == 0 || base_url.last() == '/' {
        base_url + rest
    } else {
        base_url + seq!['/'] + rest
    }
}

/// The address under which the file `filepath` is served: the part of its
/// path below the data root `base_dir`, appended to `base_url`. `None` where
/// the file does not lie under the data root.
pub open spec fn rebased(base_dir: Seq<char>, base_url: Seq<char>, filepath: Seq<char>) -> Option<
    Seq<char>,
> {
    if is_under(base_dir, filepath) {
        Some(joined(base_url, relative_part(base_dir, filepath)))
    } else {
        None
    }
}

/// A file directly described as root, separator and relative path is served
/// at base address, separator and the same relative path, as long as the
/// root and the address do not end in a separator and the relative path does
/// not begin with one.
pub proof fn rebased_below_root(base_dir: Seq<char>, base_url: Seq<char>, rest: Seq<char>)
    requires
        base_dir.len() > 0,
        base_dir.last() != '/',
        base_url.len() > 0,
        base_url.last() != '/',
        rest.len() == 0 || rest[0] != '/',
    ensures
        rebased(base_dir, base_url, base_dir + seq!['/'] + rest) == Some(
            base_url + seq!['/'] + rest,
        ),
{
    let filepath = base_dir + seq!['/'] + rest;
    assert(filepath.subrange(0, base_dir.len() as int) =~= base_dir);
    assert(filepath[base_dir.len() as int] == '/');
    let tail = filepath.subrange(base_dir.len() as int, filepath.len() as int);
    assert(tail =~= seq!['/'] + rest);
    assert(tail.drop_first() =~= rest);
    assert(trim_separators(rest) == rest);
    assert(trim_separators(tail) == rest);
}

/// Replaces the data root in front of a file's path by the address under
/// which the data root is served. Fails with `PathOutsideDataRoot`, naming
/// the file, exactly where the file does not lie under the data root.
pub fn replace_base(base_dir: &str, base_url: &str, filepath: &str) -> (url: Result<String, Error>)
    ensures
        match url {
            Ok(url) => rebased(base_dir@, base_url@, filepath@) == Some(url@),
            Err(error) => rebased(base_dir@, base_url@, filepath@) is None && error.is_outside_root(
                filepath@,
            ),
        },
{
    let root = chars_of(base_dir);
    let file = chars_of(filepath);
    let under = matches_at(&file, 0, &root) && (root.len() == 0 || root[root.len() - 1] == '/'
        || file.len() == root.len() || file[root.len()] == '/');
    if !under {
        return Err(Error::PathOutsideDataRoot(String::from_str(filepath)));
    }
    let mut at: usize = root.len();
    while at < file.len() && file[at] == '/'
        invariant
            root@.len() <= at <= file@.len(),
            relative_part(base_dir@, filepath@) == trim_separators(
                file@.subrange(at as int, file@.len() as int),
            ),
            file@ == filepath@,
            root@ == base_dir@,
        decreases file@.len() - at,
    {
        proof {
            let tail = file@.subrange(at as int, file@.len() as int);
            assert(tail.drop_first() =~= file@.subrange(at + 1, file@.len() as int));
        }
        at += 1;
    }
    let rest = slice_text(filepath, at, file.len());
    let address = chars_of(base_url);
    let mut url = String::from_str(base_url);
    if address.len() > 0 && address[address.len() - 1] != '/' {
        proof {
            reveal_strlit("/");
        }
        url.append("/");
        assert(url@ =~= base_url@ + seq!['/']);
    }
    url.append(rest.as_str());
    Ok(url)
}

/// The path of the normalized copy of the image `path` for the side length
/// `target`: a hyphen, the side length, an `x` and the side length again
/// stand before the extension of the file name.
pub open spec fn resized_path(path: Seq<char>, target: nat) -> Seq<char> {
    path.subrange(0, stem_end(path)) + seq!['-'] + decimal_text(target) + seq!['x'] + decimal_text(
        target,
    ) + path.subrange(stem_end(path), path.len() as int)
}

/// The side length stands before the extension: for an image named `stem`, a
/// dot and `extension`, the normalized copy is named `stem`, a hyphen, the
/// side length twice with an `x` between, a dot and `extension`. Here `stem`
/// does not end a directory, and `extension` holds no dot and no separator.
pub proof fn resized_path_keeps_the_extension(stem: Seq<char>, extension: Seq<char>, target: nat)
    requires
        name_start(stem) < stem.len(),
        forall|i: int|
            0 <= i < extension.len() ==> extension[i] != '.' && #[trigger] extension[i] != '/',
    ensures
        resized_path(stem + seq!['.'] + extension, target) == stem + seq!['-'] + decimal_text(
            target,
        ) + seq!['x'] + decimal_text(target) + seq!['.'] + extension,
{
    let path = stem + seq!['.'] + extension;
    let tail = seq!['.'] + extension;
    assert(path =~= stem + tail);
    lemma_last_index_of(stem, '/');
    lemma_last_index_append(stem, tail, '/');
    lemma_last_index_is(path, '.', stem.len() as int);
    assert(stem_end(path) == stem.len());
    assert(path.subrange(0, stem.len() as int) =~= stem);
    assert(path.subrange(stem.len() as int, path.len() as int) =~= tail);
    assert(resized_path(path, target) =~= stem + seq!['-'] + decimal_text(target) + seq!['x']
        + decimal_text(target) + seq!['.'] + extension);
}

/// Names the normalized copy of a cover image: the file beside the image
/// whose name says the side length, such as `cover-1400x1400.jpg` for
/// `cover.jpg`. The image itself is never written to.
pub fn get_resized_image_filepath(image_filepath: &str, target_size: u32) -> (path: String)
    ensures
        path@ == resized_path(image_filepath@, target_size as nat),
{
    let chars = chars_of(image_filepath);
    let end = stem_end_of(&chars);
    let side = decimal(target_size as u64);
    let mut path = slice_text(image_filepath, 0, end);
    proof {
        reveal_strlit("-");
        reveal_strlit("x");
    }
    path.append("-");
    path.append(side.as_str());
    path.append("x");
    path.append(side.as_str());
    path.append(slice_text(image_filepath, end, chars.len()).as_str());
    proof {
        assert("-"@ =~= seq!['-']);
        assert("x"@ =~= seq!['x']);
        assert(path@ =~= resized_path(image_filepath@, target_size as nat));
    }
    path
}

/// The item that an episode becomes in the feed of a data root `base_dir`
/// served at `base_url`, or `None` where its upload date gives no time stamp
/// or one of its files does not lie under the data root. The item links the
/// normalized copy of the cover image `image_filepath`.
pub open spec fn converted_episode(
    base_dir: Seq<char>,
    base_url: Seq<char>,
    source: info::episode::InfoView,
    enclosure: info::episode::EnclosureView,
    image_filepath: Seq<char>,
) -> Option<rss::episode::EpisodeView> {
    let stamp = publication_stamp(source.upload_date);
    let media = rebased(base_dir, base_url, enclosure.video_filepath);
    let image = rebased(base_dir, base_url, resized_path(image_filepath, TARGET_SIZE as nat));
    if stamp is Some && media is Some && image is Some {
        Some(
            rss::episode::EpisodeView {
                guid: source.guid,
                pub_date: stamp->0,
                title: source.title,
                link: source.link,
                description: source.description,
                enclosure: rss::episode::EnclosureView {
                    file_url: media->0,
                    file_length: decimal_text(enclosure.video_filelength as nat),
                    file_type: enclosure.video_filetype,
                },
                author: source.author,
                image: rss::episode::ImageView { file_url: image->0 },
                duration: decimal_text(source.duration_seconds as nat),
                explicit_content: feed_explicit(),
            },
        )
    } else {
        None
    }
}

/// True when `error` is the one that an episode without an item is refused
/// with: `MalformedMetadata` for its upload date, else `PathOutsideDataRoot`
/// for its media file, else `PathOutsideDataRoot` for the normalized copy of
/// its cover image.
pub open spec fn episode_fault(
    base_dir: Seq<char>,
    base_url: Seq<char>,
    source: info::episode::InfoView,
    enclosure: info::episode::EnclosureView,
    image_filepath: Seq<char>,
    error: Error,
) -> bool {
    if publication_stamp(source.upload_date) is None {
        error.is_malformed(source.upload_date)
    } else if rebased(base_dir, base_url, enclosure.video_filepath) is None {
        error.is_outside_root(enclosure.video_filepath)
    } else {
        error.is_outside_root(resized_path(image_filepath, TARGET_SIZE as nat))
    }
}

/// Converts the metadata of an episode into an item of the feed, and returns
/// it with the episode's place in the playlist.
///
/// Fails with `MalformedMetadata` where the upload date gives no time stamp,
/// and with `PathOutsideDataRoot` where the media file or the normalized copy
/// of the cover image does not lie under the data root `base_dir`.
pub fn convert_episode(
    base_dir: &str,
    base_url: &str,
    source: &info::episode::Info,
    enclosure: &info::episode::Enclosure,
    image_filepath: &str,
) -> (converted: Result<(rss::episode::Episode, u32), Error>)
    ensures
        match converted {
            Ok((episode, playlist_index)) => converted_episode(
                base_dir@,
                base_url@,
                source@,
                enclosure@,
                image_filepath@,
            ) == Some(episode@) && playlist_index == source.playlist_index,
            Err(error) => converted_episode(
                base_dir@,
                base_url@,
                source@,
                enclosure@,
                image_filepath@,
            ) is None && episode_fault(
                base_dir@,
                base_url@,
                source@,
                enclosure@,
                image_filepath@,
                error,
            ),
        },
{
    let resized_image_filepath = get_resized_image_filepath(image_filepath, TARGET_SIZE);
    let pub_date = source.pub_date()?;
    let file_url = replace_base(base_dir, base_url, enclosure.video_filepath.as_str())?;
    let image_url = replace_base(base_dir, base_url, resized_image_filepath.as_str())?;
    let target = rss::episode::Episode {
        guid: source.guid.clone(),
        pub_date,
        title: source.title.clone(),
        link: source.link.clone(),
        description: source.description.clone(),
        enclosure: rss::episode::Enclosure {
            file_url,
            file_length: decimal(enclosure.video_filelength),
            file_type: enclosure.video_filetype.clone(),
        },
        author: source.author.clone(),
        image: rss::episode::Image { file_url: image_url },
        duration: decimal(source.duration_seconds as u64),
        explicit_content: String::from_str("false"),
    };
    Ok((target, source.playlist_index))
}

/// The channel of the feed of a data root `base_dir` served at `base_url`,
/// or `None` where the date of the channel's last change gives no time stamp
/// or the normalized copy of its cover image does not lie under the data
/// root. The channel holds `episodes` as they are given.
pub open spec fn converted_channel(
    base_dir: Seq<char>,
    base_url: Seq<char>,
    source: info::channel::InfoView,
    image_filepath: Seq<char>,
    last_build_date: Seq<char>,
    episodes: Seq<rss::episode::EpisodeView>,
) -> Option<rss::channel::ChannelView> {
    let stamp = publication_stamp(source.upload_date);
    let image = rebased(base_dir, base_url, resized_path(image_filepath, TARGET_SIZE as nat));
    if stamp is Some && image is Some {
        Some(
            rss::channel::ChannelView {
                title: source.title,
                description: source.description,
                link: source.link,
                image: rss::channel::ImageView { image_url: image->0 },
                author: source.author,
                language: feed_language(),
                last_build_date,
                pub_date: stamp->0,
                category: feed_category(),
                generator: feed_generator(),
                explicit_content: feed_explicit(),
                channel_type: feed_type(),
                episodes,
            },
        )
    } else {
        None
    }
}

/// True when `error` is the one that a channel without a feed is refused
/// with: `PathOutsideDataRoot` for the normalized copy of its cover image,
/// else `MalformedMetadata` for the date of its last change.
pub open spec fn channel_fault(
    base_dir: Seq<char>,
    base_url: Seq<char>,
    source: info::channel::InfoView,
    image_filepath: Seq<char>,
    error: Error,
) -> bool {
    if rebased(base_dir, base_url, resized_path(image_filepath, TARGET_SIZE as nat)) is None {
        error.is_outside_root(resized_path(image_filepath, TARGET_SIZE as nat))
    } else {
        error.is_malformed(source.upload_date)
    }
}

/// Converts the metadata of a channel into the channel of the feed, which
/// holds `episodes` in the order given. `last_build_date` is the time stamp
/// of the moment at which the feed is built.
///
/// Fails with `PathOutsideDataRoot` where the normalized copy of the cover
/// image does not lie under the data root `base_dir`, and with
/// `MalformedMetadata` where the date of the last change gives no time stamp.
pub fn convert_channel(
    base_dir: &str,
    base_url: &str,
    source: &info::channel::Info,
    image_filepath: &str,
    episodes: Vec<rss::episode::Episode>,
    last_build_date: &str,
) -> (converted: Result<rss::channel::Channel, Error>)
    ensures
        match converted {
            Ok(channel) => converted_channel(
                base_dir@,
                base_url@,
                source@,
                image_filepath@,
                last_build_date@,
                episode_views(episodes@),
            ) == Some(channel@),
            Err(error) => converted_channel(
                base_dir@,
                base_url@,
                source@,
                image_filepath@,
                last_build_date@,
                episode_views(episodes@),
            ) is None && channel_fault(base_dir@, base_url@, source@, image_filepath@, error),
        },
{
    let resized_image_filepath = get_resized_image_filepath(image_filepath, TARGET_SIZE);
    let image_url = replace_base(base_dir, base_url, resized_image_filepath.as_str())?;
    let pub_date = source.pub_date()?;
    let channel = rss::channel::Channel {
        title: source.title.clone(),
        description: source.description.clone(),
        link: source.link.clone(),
        image: rss::channel::Image { image_url },
        author: source.author.clone(),
        language: String::from_str(source.language()),
        last_build_date: String::from_str(last_build_date),
        pub_date,
        category: String::from_str(source.category()),
        generator: String::from_str(source.generator()),
        explicit_content: String::from_str(source.explicit_content()),
        channel_type: String::from_str(source.channel_type()),
        episodes,
    };
    Ok(channel)
}

/// What an episode brings to the conversion: its metadata file, the
/// metadata read from it, and the size of its media file, or `None` where
/// the media file is missing or its size cannot be read.
pub type EpisodeSource = (info::episode::InfoFile, info::episode::Info, Option<u64>);

/// What an `EpisodeSource` stands for.
pub type EpisodeSourceView = (info::episode::InfoFileView, info::episode::InfoView, Option<u64>);

/// What each of `sources` stands for, in the same order.
pub open spec fn source_views(sources: Seq<EpisodeSource>) -> Seq<EpisodeSourceView> {
    sources.map_values(|source: EpisodeSource| (source.0@, source.1@, source.2))
}

/// The path of the media file of the episode `source`: it lies beside the
/// metadata file.
pub open spec fn media_of(source: EpisodeSourceView) -> Seq<char> {
    companion_text(source.0.filepath, media_extension())
}

/// The path of the cover image of the episode `source`: it lies beside the
/// metadata file.
pub open spec fn image_of(source: EpisodeSourceView) -> Seq<char> {
    companion_text(source.0.filepath, episode_image_extension())
}

/// The media file of the episode `source`, where it has the size `length`.
pub open spec fn enclosure_of(
    source: EpisodeSourceView,
    length: u64,
) -> info::episode::EnclosureView {
    info::episode::EnclosureView {
        video_filepath: media_of(source),
        video_filelength: length,
        video_filetype: media_extension(),
    }
}

/// The item that the episode `source` becomes: none where its media file is
/// missing, and otherwise what its metadata, its media file and its cover
/// image give; see `converted_episode`.
pub open spec fn converted_source(
    base_dir: Seq<char>,
    base_url: Seq<char>,
    source: EpisodeSourceView,
) -> Option<rss::episode::EpisodeView> {
    match source.2 {
        Some(length) => converted_episode(
            base_dir,
            base_url,
            source.1,
            enclosure_of(source, length),
            image_of(source),
        ),
        None => None,
    }
}

/// True when `error` is the one that the episode `source` without an item is
/// refused with: `MissingEnclosure`, naming the media file, where that file
/// is missing, and otherwise the error of the conversion; see
/// `episode_fault`.
pub open spec fn source_fault(
    base_dir: Seq<char>,
    base_url: Seq<char>,
    source: EpisodeSourceView,
    error: Error,
) -> bool {
    match source.2 {
        Some(length) => episode_fault(
            base_dir,
            base_url,
            source.1,
            enclosure_of(source, length),
            image_of(source),
            error,
        ),
        None => error.is_missing_enclosure(media_of(source)),
    }
}

/// The items of the episodes `sources`, in the order of `sources`, each with
/// the episode's place in the playlist as key.
pub open spec fn episode_entries(
    base_dir: Seq<char>,
    base_url: Seq<char>,
    sources: Seq<EpisodeSourceView>,
) -> Seq<(u32, rss::episode::EpisodeView)> {
    sources.map_values(
        |source: EpisodeSourceView|
            (source.1.playlist_index, converted_source(base_dir, base_url, source)->0),
    )
}

/// The items of `entries` without their keys.
pub open spec fn items_of(entries: Seq<(u32, rss::episode::EpisodeView)>) -> Seq<
    rss::episode::EpisodeView,
> {
    entries.map_values(|entry: (u32, rss::episode::EpisodeView)| entry.1)
}

/// The version of the feed format.
pub open spec fn feed_version() -> Seq<char> {
    "2.0"@
}

/// The namespace of the iTunes extensions.
pub open spec fn itunes_namespace() -> Seq<char> {
    "http://www.itunes.com/dtds/podcast-1.0.dtd"@
}

/// The namespace of the content module.
pub open spec fn content_namespace() -> Seq<char> {
    "http://purl.org/rss/1.0/modules/content/"@
}

/// The declaration that every rendered document begins with.
pub open spec fn xml_prolog() -> Seq<char> {
    "<?xml version=\"1.0\" encoding=\"UTF-8\"?>"@
}

/// The feed that holds `channel`.
pub open spec fn feed_of(channel: rss::channel::ChannelView) -> rss::RssView {
    rss::RssView {
        version: feed_version(),
        namespace: itunes_namespace(),
        content_namespace: content_namespace(),
        channel,
    }
}

/// The document that holds `feed`: the declaration, a line break, and the feed.
pub open spec fn document_text(feed: rss::RssView) -> Seq<char> {
    xml_prolog() + seq!['\n'] + feed.xml()
}

/// True when `text` is the document of the channel `channel` with the items
/// of `sources`, ordered by place in the playlist, smallest first; items of
/// the same place keep the order in which they stand in `sources`.
pub open spec fn is_feed_document(
    base_dir: Seq<char>,
    base_url: Seq<char>,
    sources: Seq<EpisodeSourceView>,
    channel: info::channel::InfoView,
    channel_image_filepath: Seq<char>,
    last_build_date: Seq<char>,
    text: Seq<char>,
) -> bool {
    exists|ordered: Seq<(u32, rss::episode::EpisodeView)>|
        {
            &&& is_stable_sort(episode_entries(base_dir, base_url, sources), ordered)
            &&& converted_channel(
                base_dir,
                base_url,
                channel,
                channel_image_filepath,
                last_build_date,
                items_of(ordered),
            ) matches Some(converted)
            &&& text == document_text(feed_of(converted))
        }
}

/// Where no two episodes have the same place in the playlist, the feed does
/// not depend on the order in which the episodes were found: two listings of
/// the same items give the same document.
pub proof fn feed_of_distinct_places_ignores_arrival(
    base_dir: Seq<char>,
    base_url: Seq<char>,
    first: Seq<EpisodeSourceView>,
    second: Seq<EpisodeSourceView>,
    channel: info::channel::InfoView,
    channel_image_filepath: Seq<char>,
    last_build_date: Seq<char>,
    first_text: Seq<char>,
    second_text: Seq<char>,
)
    requires
        distinct_keys(episode_entries(base_dir, base_url, first)),
        episode_entries(base_dir, base_url, first).to_multiset() == episode_entries(
            base_dir,
            base_url,
            second,
        ).to_multiset(),
        is_feed_document(
            base_dir,
            base_url,
            first,
            channel,
            channel_image_filepath,
            last_build_date,
            first_text,
        ),
        is_feed_document(
            base_dir,
            base_url,
            second,
            channel,
            channel_image_filepath,
            last_build_date,
            second_text,
        ),
    ensures
        first_text == second_text,
{
    lemma_distinct_arrivals_agree(
        episode_entries(base_dir, base_url, first),
        episode_entries(base_dir, base_url, second),
    );
    feed_ignores_arrival(
        base_dir,
        base_url,
        first,
        second,
        channel,
        channel_image_filepath,
        last_build_date,
        first_text,
        second_text,
    );
}

/// The feed does not depend on the order in which the episodes were found,
/// as long as episodes of the same place in the playlist were found in the
/// same order: two listings that hold, for each place, the same items in the
/// same order give the same document.
pub proof fn feed_ignores_arrival(
    base_dir: Seq<char>,
    base_url: Seq<char>,
    first: Seq<EpisodeSourceView>,
    second: Seq<EpisodeSourceView>,
    channel: info::channel::InfoView,
    channel_image_filepath: Seq<char>,
    last_build_date: Seq<char>,
    first_text: Seq<char>,
    second_text: Seq<char>,
)
    requires
        forall|place: u32| #[trigger]
            keyed(episode_entries(base_dir, base_url, first), place) == keyed(
                episode_entries(base_dir, base_url, second),
                place,
            ),
        is_feed_document(
            base_dir,
            base_url,
            first,
            channel,
            channel_image_filepath,
            last_build_date,
            first_text,
        ),
        is_feed_document(
            base_dir,
            base_url,
            second,
            channel,
            channel_image_filepath,
            last_build_date,
            second_text,
        ),
    ensures
        first_text == second_text,
{
    let a = choose|ordered: Seq<(u32, rss::episode::EpisodeView)>|
        {
            &&& is_stable_sort(episode_entries(base_dir, base_url, first), ordered)
            &&& converted_channel(
                base_dir,
                base_url,
                channel,
                channel_image_filepath,
                last_build_date,
                items_of(ordered),
            ) matches Some(converted)
            &&& first_text == document_text(feed_of(converted))
        };
    let b = choose|ordered: Seq<(u32, rss::episode::EpisodeView)>|
        {
            &&& is_stable_sort(episode_entries(base_dir, base_url, second), ordered)
            &&& converted_channel(
                base_dir,
                base_url,
                channel,
                channel_image_filepath,
                last_build_date,
                items_of(ordered),
            ) matches Some(converted)
            &&& second_text == document_text(feed_of(converted))
        };
    sort_ignores_arrival(
        episode_entries(base_dir, base_url, first),
        episode_entries(base_dir, base_url, second),
        a,
        b,
    );
}

/// True when the episode at index `at` is the first of `sources` that has no
/// item, and `error` is the one that it is refused with.
pub open spec fn is_first_fault(
    base_dir: Seq<char>,
    base_url: Seq<char>,
    sources: Seq<EpisodeSourceView>,
    at: int,
    error: Error,
) -> bool {
    &&& 0 <= at < sources.len()
    &&& forall|before: int|
        0 <= before < at ==> converted_source(base_dir, base_url, #[trigger] sources[before])
            is Some
    &&& converted_source(base_dir, base_url, sources[at]) is None
    &&& source_fault(base_dir, base_url, sources[at], error)
}

/// True when each of `sources` has an item.
pub open spec fn all_convert(
    base_dir: Seq<char>,
    base_url: Seq<char>,
    sources: Seq<EpisodeSourceView>,
) -> bool {
    forall|i: int|
        0 <= i < sources.len() ==> converted_source(base_dir, base_url, #[trigger] sources[i])
            is Some
}

/// True when `document` is what rendering the feed comes to.
///
/// The episodes are converted in their order, and the first that cannot be
/// converted decides the error. Else the channel is converted, and its error
/// counts where it cannot be. Where all can be converted, the outcome is the
/// feed document.
pub open spec fn is_processed(
    base_dir: Seq<char>,
    base_url: Seq<char>,
    sources: Seq<EpisodeSourceView>,
    channel: info::channel::InfoView,
    channel_image_filepath: Seq<char>,
    last_build_date: Seq<char>,
    document: Result<String, Error>,
) -> bool {
    match document {
        Ok(text) => all_convert(base_dir, base_url, sources) && is_feed_document(
            base_dir,
            base_url,
            sources,
            channel,
            channel_image_filepath,
            last_build_date,
            text@,
        ),
        Err(error) => if !all_convert(base_dir, base_url, sources) {
            exists|at: int| is_first_fault(base_dir, base_url, sources, at, error)
        } else if converted_channel(
            base_dir,
            base_url,
            channel,
            channel_image_filepath,
            last_build_date,
            Seq::empty(),
        ) is None {
            channel_fault(base_dir, base_url, channel, channel_image_filepath, error)
        } else {
            false
        },
    }
}

/// An episode whose media file is missing leaves the directory without a
/// document. Where every episode before it can be converted, the error is
/// `MissingEnclosure`, naming the media file.
pub proof fn missing_media_gives_no_document(
    base_dir: Seq<char>,
    base_url: Seq<char>,
    sources: Seq<EpisodeSourceView>,
    channel: info::channel::InfoView,
    channel_image_filepath: Seq<char>,
    last_build_date: Seq<char>,
    document: Result<String, Error>,
    at: int,
)
    requires
        is_processed(
            base_dir,
            base_url,
            sources,
            channel,
            channel_image_filepath,
            last_build_date,
            document,
        ),
        0 <= at < sources.len(),
        sources[at].2 is None,
    ensures
        document is Err,
        (forall|before: int|
            0 <= before < at ==> converted_source(base_dir, base_url, #[trigger] sources[before])
                is Some) ==> (document matches Err(error) && error.is_missing_enclosure(
            media_of(sources[at]),
        )),
{
    assert(converted_source(base_dir, base_url, sources[at]) is None);
    if document is Err {
        let error = document->Err_0;
        let first = choose|first: int| is_first_fault(base_dir, base_url, sources, first, error);
        if forall|before: int|
            0 <= before < at ==> converted_source(base_dir, base_url, #[trigger] sources[before])
                is Some {
            if first < at {
                assert(converted_source(base_dir, base_url, sources[first]) is Some);
            }
        }
    }
}

/// Renders the feed of one channel directory.
///
/// `episodes` are the episodes in the order in which they were found,
/// `channel` is the channel's metadata, `channel_image_filepath` the path of
/// its cover image, and `last_build_date` the time stamp of this moment. The
/// data root `base_dir` is served at `base_url`.
///
/// The episodes are converted in their order, and the first that cannot be
/// converted ends the work with its error: an episode whose media file is
/// missing gives `MissingEnclosure`, and no document at all. Then the items are ordered by
/// place in the playlist, and the channel is converted. The document is the
/// XML declaration, a line break and the feed. Where every episode and the
/// channel can be converted, the outcome is the document.
pub fn process(
    base_dir: &str,
    base_url: &str,
    episodes: &Vec<EpisodeSource>,
    channel: &info::channel::Info,
    channel_image_filepath: &str,
    last_build_date: &str,
) -> (document: Result<String, Error>)
    ensures
        is_processed(
            base_dir@,
            base_url@,
            source_views(episodes@),
            channel@,
            channel_image_filepath@,
            last_build_date@,
            document,
        ),
{
    let ghost sources = source_views(episodes@);
    let ghost model = |episode: rss::episode::Episode| episode@;
    let mut indexed: Vec<(u32, rss::episode::Episode)> = Vec::new();
    let mut i: usize = 0;
    assert(map_items(indexed@, model) =~= episode_entries(base_dir@, base_url@, sources.take(0)));
    while i < episodes.len()
        invariant
            i <= episodes@.len(),
            sources == source_views(episodes@),
            model == |episode: rss::episode::Episode| episode@,
            map_items(indexed@, model) == episode_entries(
                base_dir@,
                base_url@,
                sources.take(i as int),
            ),
            forall|k: int|
                0 <= k < i ==> converted_source(base_dir@, base_url@, #[trigger] sources[k])
                    is Some,
        decreases episodes@.len() - i,
    {
        let ghost before = indexed@;
        let source = &episodes[i];
        let (info, enclosure, image_filepath) = match source.0.parse(
            source.1.duplicate(),
            source.2,
        ) {
            Ok(parsed) => parsed,
            Err(error) => {
                assert(is_first_fault(base_dir@, base_url@, sources, i as int, error));
                return Err(error);
            },
        };
        assert(enclosure@ == enclosure_of(sources[i as int], enclosure.video_filelength));
        match convert_episode(base_dir, base_url, &info, &enclosure, image_filepath.as_str()) {
            Ok((episode, playlist_index)) => {
                indexed.push((playlist_index, episode));
                proof {
                    assert(sources.take(i + 1) =~= sources.take(i as int).push(sources[i as int]));
                    assert(map_items(indexed@, model) =~= map_items(before, model).push(
                        (playlist_index, episode@),
                    ));
                    assert(map_items(indexed@, model) =~= episode_entries(
                        base_dir@,
                        base_url@,
                        sources.take(i + 1),
                    ));
                }
            },
            Err(error) => {
                assert(is_first_fault(base_dir@, base_url@, sources, i as int, error));
                return Err(error);
            },
        }
        i += 1;
    }
    assert(sources.take(episodes@.len() as int) =~= sources);
    let ghost unsorted = indexed@;
    let sorted = sort_by_key(indexed);
    let ghost ordered = map_items(sorted@, model);
    proof {
        lemma_sort_map(unsorted, sorted@, model);
    }
    let mut items: Vec<rss::episode::Episode> = Vec::new();
    for entry in it: sorted
        invariant
            items@.len() == it.index(),
            forall|k: int| 0 <= k < items@.len() ==> #[trigger] items@[k] == it.seq()[k].1,
    {
        items.push(entry.1);
    }
    assert(episode_views(items@) =~= items_of(ordered));
    let converted = match convert_channel(
        base_dir,
        base_url,
        channel,
        channel_image_filepath,
        items,
        last_build_date,
    ) {
        Ok(converted) => converted,
        Err(error) => {
            return Err(error);
        },
    };
    let feed = rss::Rss {
        version: String::from_str("2.0"),
        namespace: String::from_str("http://www.itunes.com/dtds/podcast-1.0.dtd"),
        content_namespace: String::from_str("http://purl.org/rss/1.0/modules/content/"),
        channel: converted,
    };
    assert(feed@ == feed_of(converted@));
    let rendered = match feed.to_string() {
        Ok(rendered) => rendered,
        Err(error) => {
            return Err(error);
        },
    };
    proof {
        reveal_strlit("\n");
    }
    let mut text = String::from_str("<?xml version=\"1.0\" encoding=\"UTF-8\"?>");
    text.append("\n");
    text.append(rendered.as_str());
    proof {
        assert("\n"@ =~= seq!['\n']);
        assert(text@ =~= document_text(feed_of(converted@)));
        assert(is_stable_sort(episode_entries(base_dir@, base_url@, sources), ordered));
    }
    Ok(text)
}

} // verus!
