//! Converting one channel directory, one step at a time.
//!
//! The conversion never touches a file itself. It asks its caller for one
//! thing at a time, with an `Action`, and is told what came of it, with an
//! `Event`. What to ask next, and when to stop, is decided here:
//!
//! 1. the directory is listed, and the episodes' metadata files are picked
//!    and ordered by upload date, each of which must be a date of the
//!    calendar;
//! 2. for each episode in that order, the metadata is read, the media file is
//!    measured, and the cover image is normalized;
//! 3. the channel's metadata file is picked and read, and the channel's cover
//!    image is normalized;
//! 4. the time is asked, and the feed is rendered.
//!
//! A cover image is normalized into a file beside it. Where that file exists
//! it is kept, and the image is not even read. The first failure ends the
//! conversion, and no feed comes of it.

use vstd::prelude::*;
use crate::convert::{
    get_resized_image_filepath, is_feed_document, is_processed, process, resized_path,
    source_views, EpisodeSource, TARGET_SIZE,
};
use crate::cover::{
    companion_images_have_formats, cover_is_made, decoded_png, encoded, extension_of, fits,
    format_named, format_of_path, is_normalized, layout_of, resize_image_to_fill, Format,
    RasterView,
};
use crate::error::Error;
use crate::info::channel;
use crate::info::channel::{channel_image_extension, is_channel_path, is_channel_pick};
use crate::info::episode;
use crate::info::episode::{
    episode_image_extension, is_episode_listing, is_episode_path, is_parsed, media_extension,
};
use crate::naming::lemma_names_end_in_metadata_suffix;
use crate::paths::{companion_text, file_name};

verus! {

/// What the caller is asked to do next. Each request but the last is
/// answered with the event that its description names, or with
/// `Event::Failed` where it cannot be done.
#[derive(Debug)]
pub enum Action {
    /// List what the directory holds, and answer with `Event::Listed`.
    ListDirectory { dirpath: String },
    /// Read the metadata of an episode from the file, and answer with
    /// `Event::EpisodeRead`.
    ReadEpisode { filepath: String },
    /// Look up the size of the media file, and answer with
    /// `Event::MediaMeasured`: `None` where the file is missing or its size
    /// cannot be read.
    MeasureMedia { filepath: String },
    /// Tell whether the file exists, and answer with `Event::CoverFound`.
    FindCover { filepath: String },
    /// Read the content of the image file, and answer with `Event::CoverRead`.
    ReadCover { filepath: String },
    /// Write the content to the file, and answer with `Event::CoverWritten`.
    WriteCover { filepath: String, content: Vec<u8> },
    /// Read the metadata of the channel from the file, and answer with
    /// `Event::ChannelRead`.
    ReadChannel { filepath: String },
    /// Write the time stamp of this moment, and answer with `Event::TimeTold`.
    TellTime,
    /// The conversion is over: this is the document of the feed, or the
    /// failure that left the directory without one.
    Finish(Result<String, Error>),
}

/// What an `Action` stands for.
pub enum ActionView {
    /// See `Action::ListDirectory`.
    ListDirectory { dirpath: Seq<char> },
    /// See `Action::ReadEpisode`.
    ReadEpisode { filepath: Seq<char> },
    /// See `Action::MeasureMedia`.
    MeasureMedia { filepath: Seq<char> },
    /// See `Action::FindCover`.
    FindCover { filepath: Seq<char> },
    /// See `Action::ReadCover`.
    ReadCover { filepath: Seq<char> },
    /// See `Action::WriteCover`.
    WriteCover { filepath: Seq<char>, content: Seq<u8> },
    /// See `Action::ReadChannel`.
    ReadChannel { filepath: Seq<char> },
    /// See `Action::TellTime`.
    TellTime,
    /// See `Action::Finish`.
    Finish(Result<Seq<char>, Error>),
}

impl View for Action {
    type V = ActionView;

    open spec fn view(&self) -> ActionView {
        match *self {
            Action::ListDirectory { dirpath } => ActionView::ListDirectory { dirpath: dirpath@ },
            Action::ReadEpisode { filepath } => ActionView::ReadEpisode { filepath: filepath@ },
            Action::MeasureMedia { filepath } => ActionView::MeasureMedia { filepath: filepath@ },
            Action::FindCover { filepath } => ActionView::FindCover { filepath: filepath@ },
            Action::ReadCover { filepath } => ActionView::ReadCover { filepath: filepath@ },
            Action::WriteCover { filepath, content } => ActionView::WriteCover {
                filepath: filepath@,
                content: content@,
            },
            Action::ReadChannel { filepath } => ActionView::ReadChannel { filepath: filepath@ },
            Action::TellTime => ActionView::TellTime,
            Action::Finish(Ok(text)) => ActionView::Finish(Ok(text@)),
            Action::Finish(Err(error)) => ActionView::Finish(Err(error)),
        }
    }
}

/// What the caller tells the conversion: what came of its last request.
#[derive(Debug)]
pub enum Event {
    /// The paths of what the directory holds.
    Listed(Vec<String>),
    /// The metadata of an episode.
    EpisodeRead(episode::Info),
    /// The size of a media file, or `None` where it is missing or its size
    /// cannot be read.
    MediaMeasured(Option<u64>),
    /// Whether the normalized copy of a cover image exists.
    CoverFound(bool),
    /// The content of an image file.
    CoverRead(Vec<u8>),
    /// The normalized copy of a cover image is written.
    CoverWritten,
    /// The metadata of the channel.
    ChannelRead(channel::Info),
    /// The time stamp of this moment.
    TimeTold(String),
    /// The request could not be done.
    Failed(Error),
}

/// How far the normalizing of a cover image has come.
#[derive(Debug)]
pub enum CoverPhase {
    /// Asked whether the normalized copy exists.
    Probing,
    /// Asked for the content of the image, which has this format.
    Reading(Format),
    /// Asked to write the normalized copy.
    Writing,
}

/// How far the conversion has come: what it waits for.
#[derive(Debug)]
pub enum Phase {
    /// Waits for the listing of the directory.
    Listing,
    /// Waits for the metadata of the episode in this file.
    EpisodeInfo(episode::InfoFile),
    /// Waits for the size of the media file of the episode in this file,
    /// which has this metadata.
    EpisodeMedia(episode::InfoFile, episode::Info),
    /// Normalizes the cover image of this episode.
    EpisodeCover(EpisodeSource, CoverPhase),
    /// Waits for the metadata of the channel in this file.
    ChannelInfo(channel::InfoFile),
    /// Normalizes the cover image, at this path, of the channel with this
    /// metadata.
    ChannelCover(channel::Info, String, CoverPhase),
    /// Waits for the time, to render the feed of the channel with this
    /// metadata and the cover image at this path.
    Time(channel::Info, String),
    /// The conversion is over.
    Done,
}

/// The conversion of one channel directory.
#[derive(Debug)]
pub struct Conversion {
    /// The data root.
    pub base_dir: String,
    /// The address under which the data root is served.
    pub base_url: String,
    /// The channel directory.
    pub dirpath: String,
    /// The paths of what the channel directory holds, once it is listed.
    pub entries: Vec<String>,
    /// The metadata files of the episodes, ordered by upload date.
    pub files: Vec<episode::InfoFile>,
    /// The episodes that are ready for the feed: the first of `files`, in
    /// the same order.
    pub episodes: Vec<EpisodeSource>,
    /// What the conversion waits for.
    pub phase: Phase,
}

/// The text of the error that an answer out of turn ends the conversion with.
pub open spec fn out_of_turn() -> Seq<char> {
    "unexpected answer"@
}

/// True when `error` says that the caller answered out of turn.
pub open spec fn is_out_of_turn(error: Error) -> bool {
    error matches Error::IoError(text) && text@ == out_of_turn()
}

/// True when the conversion `after` is over and `action` hands out `error`.
pub open spec fn ends_with(after: Conversion, action: Action, error: Error) -> bool {
    after.phase is Done && action == Action::Finish(Err(error))
}

/// True when `after` works on the same directory as `before`.
pub open spec fn same_job(before: Conversion, after: Conversion) -> bool {
    &&& after.base_dir == before.base_dir
    &&& after.base_url == before.base_url
    &&& after.dirpath == before.dirpath
}

/// True when `after` has listed and gathered what `before` has.
pub open spec fn same_finds(before: Conversion, after: Conversion) -> bool {
    &&& after.entries == before.entries
    &&& after.files == before.files
    &&& after.episodes == before.episodes
}

/// True when `after` and `action` are how the conversion goes on once its
/// episodes so far are ready: with the next episode's metadata, where one is
/// left; else with the channel's metadata file, picked among the entries;
/// else, where none can be picked, the conversion ends with that error.
pub open spec fn moves_on(after: Conversion, action: Action) -> bool {
    if after.episodes@.len() < after.files@.len() {
        &&& after.phase matches Phase::EpisodeInfo(file)
        &&& file@ == after.files@[after.episodes@.len() as int]@
        &&& action@ == (ActionView::ReadEpisode { filepath: file.filepath@ })
    } else {
        ||| {
            &&& after.phase matches Phase::ChannelInfo(file)
            &&& is_channel_pick(after.dirpath@, after.entries@, Ok(file))
            &&& action@ == (ActionView::ReadChannel { filepath: file.filepath@ })
        }
        ||| {
            &&& after.phase is Done
            &&& action matches Action::Finish(Err(error))
            &&& is_channel_pick(after.dirpath@, after.entries@, Err(error))
        }
    }
}

/// What a step of normalizing a cover image comes to.
#[derive(Debug)]
pub enum CoverOutcome {
    /// The normalized copy is there.
    Ready,
    /// There is more to do: the next phase, and what to ask.
    Next(CoverPhase, Action),
    /// The cover image cannot be normalized.
    Failed(Error),
}

/// True when `outcome` is what the answer `event` comes to in the phase
/// `phase` of normalizing the cover image `image`.
///
/// A normalized copy that exists is ready, and nothing is read or written.
/// Else the image is read, if its extension names a format; what is read is
/// normalized; and what comes of that is written beside the image.
pub open spec fn cover_follows(
    image: Seq<char>,
    phase: CoverPhase,
    event: Event,
    outcome: CoverOutcome,
) -> bool {
    match (phase, event) {
        (_, Event::Failed(error)) => outcome == CoverOutcome::Failed(error),
        (CoverPhase::Probing, Event::CoverFound(true)) => outcome is Ready,
        (CoverPhase::Probing, Event::CoverFound(false)) => match format_named(
            extension_of(image),
        ) {
            Some(format) => {
                &&& outcome matches CoverOutcome::Next(CoverPhase::Reading(same), action)
                &&& same == format
                &&& action@ == (ActionView::ReadCover { filepath: image })
            },
            None => outcome matches CoverOutcome::Failed(error) && error.is_unknown_format(image),
        },
        (CoverPhase::Reading(format), Event::CoverRead(content)) => {
            ||| {
                &&& outcome matches CoverOutcome::Next(
                    CoverPhase::Writing,
                    Action::WriteCover { filepath, content: resized },
                )
                &&& filepath@ == resized_path(image, TARGET_SIZE as nat)
                &&& is_normalized(content@, format, TARGET_SIZE as int, Ok(resized))
            }
            ||| {
                &&& outcome matches CoverOutcome::Failed(error)
                &&& is_normalized(content@, format, TARGET_SIZE as int, Err(error))
            }
        },
        (CoverPhase::Writing, Event::CoverWritten) => outcome is Ready,
        _ => outcome matches CoverOutcome::Failed(error) && is_out_of_turn(error),
    }
}

/// Takes one step of normalizing the cover image `image`.
pub fn cover_step(image: &str, phase: CoverPhase, event: Event) -> (outcome: CoverOutcome)
    ensures
        cover_follows(image@, phase, event, outcome),
{
    match (phase, event) {
        (_, Event::Failed(error)) => CoverOutcome::Failed(error),
        (CoverPhase::Probing, Event::CoverFound(found)) => {
            if found {
                CoverOutcome::Ready
            } else {
                match format_of_path(image) {
                    Ok(format) => CoverOutcome::Next(
                        CoverPhase::Reading(format),
                        Action::ReadCover { filepath: String::from_str(image) },
                    ),
                    Err(error) => CoverOutcome::Failed(error),
                }
            }
        },
        (CoverPhase::Reading(format), Event::CoverRead(content)) => {
            match resize_image_to_fill(&content, format, TARGET_SIZE) {
                Ok(resized) => CoverOutcome::Next(
                    CoverPhase::Writing,
                    Action::WriteCover {
                        filepath: get_resized_image_filepath(image, TARGET_SIZE),
                        content: resized,
                    },
                ),
                Err(error) => CoverOutcome::Failed(error),
            }
        },
        (CoverPhase::Writing, Event::CoverWritten) => CoverOutcome::Ready,
        _ => CoverOutcome::Failed(Error::IoError(String::from_str("unexpected answer"))),
    }
}

/// The path of the cover image of the episode `source`: it lies beside the
/// metadata file.
pub open spec fn cover_of(source: EpisodeSource) -> Seq<char> {
    companion_text(source.0.filepath@, episode_image_extension())
}

/// True when `after` and `action` are how the conversion `before` goes on
/// when it is told `event`.
pub open spec fn follows(
    before: Conversion,
    event: Event,
    after: Conversion,
    action: Action,
) -> bool {
    &&& same_job(before, after)
    &&& match (before.phase, event) {
        (Phase::Done, _) => {
            &&& same_finds(before, after)
            &&& after.phase is Done
            &&& action matches Action::Finish(Err(error))
            &&& is_out_of_turn(error)
        },
        (_, Event::Failed(error)) => same_finds(before, after) && ends_with(after, action, error),
        (Phase::Listing, Event::Listed(entries)) => {
            &&& after.entries == entries
            &&& after.episodes@.len() == 0
            &&& {
                ||| {
                    &&& is_episode_listing(entries@, Ok(after.files))
                    &&& moves_on(after, action)
                }
                ||| {
                    &&& after.files@.len() == 0
                    &&& after.phase is Done
                    &&& action matches Action::Finish(Err(error))
                    &&& is_episode_listing(entries@, Err(error))
                }
            }
        },
        (Phase::EpisodeInfo(file), Event::EpisodeRead(info)) => {
            &&& same_finds(before, after)
            &&& after.phase == Phase::EpisodeMedia(file, info)
            &&& action@ == (ActionView::MeasureMedia {
                filepath: companion_text(file.filepath@, media_extension()),
            })
        },
        (Phase::EpisodeMedia(file, info), Event::MediaMeasured(length)) => {
            &&& same_finds(before, after)
            &&& {
                ||| {
                    &&& length is Some
                    &&& after.phase == Phase::EpisodeCover(
                        (file, info, length),
                        CoverPhase::Probing,
                    )
                    &&& action@ == (ActionView::FindCover {
                        filepath: resized_path(cover_of((file, info, length)), TARGET_SIZE as nat),
                    })
                }
                ||| {
                    &&& after.phase is Done
                    &&& action matches Action::Finish(Err(error))
                    &&& is_parsed(file.filepath@, info, length, Err(error))
                }
            }
        },
        (Phase::EpisodeCover(source, phase), event) => {
            &&& after.entries == before.entries
            &&& after.files == before.files
            &&& exists|outcome: CoverOutcome| #[trigger]
                cover_follows(cover_of(source), phase, event, outcome) && match outcome {
                    CoverOutcome::Ready => after.episodes@ == before.episodes@.push(source)
                        && moves_on(after, action),
                    CoverOutcome::Next(next, request) => after.episodes == before.episodes
                        && after.phase == Phase::EpisodeCover(source, next) && action == request,
                    CoverOutcome::Failed(error) => after.episodes == before.episodes && ends_with(
                        after,
                        action,
                        error,
                    ),
                }
        },
        (Phase::ChannelInfo(file), Event::ChannelRead(info)) => {
            &&& same_finds(before, after)
            &&& after.phase matches Phase::ChannelCover(same, image, CoverPhase::Probing)
            &&& same == info
            &&& image@ == companion_text(file.filepath@, channel_image_extension())
            &&& action@ == (ActionView::FindCover {
                filepath: resized_path(image@, TARGET_SIZE as nat),
            })
        },
        (Phase::ChannelCover(info, image, phase), event) => {
            &&& same_finds(before, after)
            &&& exists|outcome: CoverOutcome| #[trigger]
                cover_follows(image@, phase, event, outcome) && match outcome {
                    CoverOutcome::Ready => after.phase == Phase::Time(info, image) && action
                        is TellTime,
                    CoverOutcome::Next(next, request) => after.phase == Phase::ChannelCover(
                        info,
                        image,
                        next,
                    ) && action == request,
                    CoverOutcome::Failed(error) => ends_with(after, action, error),
                }
        },
        (Phase::Time(info, image), Event::TimeTold(stamp)) => {
            &&& same_finds(before, after)
            &&& after.phase is Done
            &&& action matches Action::Finish(document)
            &&& is_processed(
                before.base_dir@,
                before.base_url@,
                source_views(before.episodes@),
                info@,
                image@,
                stamp@,
                document,
            )
        },
        _ => {
            &&& same_finds(before, after)
            &&& after.phase is Done
            &&& action matches Action::Finish(Err(error))
            &&& is_out_of_turn(error)
        },
    }
}

/// True when the episode `source` is the one of the metadata file `file`,
/// and its media file is there.
pub open spec fn belongs_to(source: EpisodeSource, file: episode::InfoFile) -> bool {
    source.0@ == file@ && source.2 is Some
}

/// True when `image` is the path of the cover image of a channel: the
/// companion of a channel's metadata file.
pub open spec fn is_channel_image(image: Seq<char>) -> bool {
    exists|path: Seq<char>|
        is_channel_path(path) && image == #[trigger] companion_text(
            path,
            channel_image_extension(),
        )
}

/// True when the conversion is in order: the episodes that are ready are
/// those of the first metadata files, one for one, and the conversion waits
/// for what belongs to the next file, or, once all are ready, to the channel.
pub open spec fn in_order(state: Conversion) -> bool {
    let ready = state.episodes@.len() as int;
    &&& ready <= state.files@.len()
    &&& forall|i: int|
        0 <= i < state.files@.len() ==> is_episode_path(#[trigger] state.files@[i].filepath@)
    &&& forall|i: int|
        0 <= i < ready ==> belongs_to(#[trigger] state.episodes@[i], state.files@[i])
    &&& match state.phase {
        Phase::Listing => state.files@.len() == 0,
        Phase::EpisodeInfo(file) => ready < state.files@.len() && file@ == state.files@[ready]@,
        Phase::EpisodeMedia(file, _) => ready < state.files@.len() && file@
            == state.files@[ready]@,
        Phase::EpisodeCover(source, _) => ready < state.files@.len() && belongs_to(
            source,
            state.files@[ready],
        ),
        Phase::ChannelInfo(file) => ready == state.files@.len() && is_channel_path(
            file.filepath@,
        ),
        Phase::ChannelCover(_, image, _) => ready == state.files@.len() && is_channel_image(
            image@,
        ),
        Phase::Time(_, _) => ready == state.files@.len(),
        Phase::Done => true,
    }
}

/// A conversion that is in order stays in order with every step.
pub proof fn step_keeps_order(before: Conversion, event: Event, after: Conversion, action: Action)
    requires
        in_order(before),
        follows(before, event, after, action),
    ensures
        in_order(after),
{
}

/// Where the normalized copy of a cover image exists, the conversion goes on
/// without it: it asks neither for the image nor for the copy to be written.
pub proof fn kept_cover_is_not_touched(before: Conversion, after: Conversion, action: Action)
    requires
        before.phase matches Phase::EpisodeCover(_, CoverPhase::Probing) || before.phase
            matches Phase::ChannelCover(_, _, CoverPhase::Probing),
        follows(before, Event::CoverFound(true), after, action),
        in_order(before),
    ensures
        !(action is ReadCover),
        !(action is WriteCover),
        before.phase matches Phase::EpisodeCover(source, _) ==> after.episodes@
            == before.episodes@.push(source),
        before.phase is ChannelCover ==> action is TellTime,
{
    step_keeps_order(before, Event::CoverFound(true), after, action);
}

/// Where the normalized copy of a cover image does not exist, the
/// conversion asks for the image: the images that lie beside metadata files
/// have formats.
pub proof fn missing_cover_is_read(before: Conversion, after: Conversion, action: Action)
    requires
        before.phase matches Phase::EpisodeCover(_, CoverPhase::Probing) || before.phase
            matches Phase::ChannelCover(_, _, CoverPhase::Probing),
        follows(before, Event::CoverFound(false), after, action),
        in_order(before),
    ensures
        before.phase matches Phase::EpisodeCover(source, _) ==> action@
            == (ActionView::ReadCover { filepath: cover_of(source) }),
        before.phase matches Phase::ChannelCover(_, image, _) ==> action@
            == (ActionView::ReadCover { filepath: image@ }),
{
    reveal_strlit("png");
    reveal_strlit("jpg");
    match before.phase {
        Phase::EpisodeCover(source, _) => {
            let path = before.files@[before.episodes@.len() as int].filepath@;
            lemma_names_end_in_metadata_suffix(file_name(path));
            companion_images_have_formats(path);
        },
        Phase::ChannelCover(_, image, _) => {
            let path = choose|path: Seq<char>|
                is_channel_path(path) && image@ == #[trigger] companion_text(
                    path,
                    channel_image_extension(),
                );
            lemma_names_end_in_metadata_suffix(file_name(path));
            companion_images_have_formats(path);
        },
        _ => {},
    }
}

/// A PNG cover that can be made is written: where the content read is
/// decoded to an image that holds its pixels, has a width and a height, and
/// fits, and the `image` crate can write every canvas of the side length as
/// PNG, the conversion asks to write a file beside the image.
pub proof fn cover_that_can_be_made_is_written(
    before: Conversion,
    content: Vec<u8>,
    after: Conversion,
    action: Action,
    image: RasterView,
)
    requires
        before.phase matches Phase::EpisodeCover(_, CoverPhase::Reading(Format::Png))
            || before.phase matches Phase::ChannelCover(_, _, CoverPhase::Reading(Format::Png)),
        follows(before, Event::CoverRead(content), after, action),
        decoded_png(content@) == Some(image),
        image.wf(),
        0 < image.width <= u32::MAX,
        0 < image.height <= u32::MAX,
        fits(
            image.width as int,
            layout_of(image.width as int, image.height as int, TARGET_SIZE as int),
            TARGET_SIZE as int,
        ),
        forall|canvas: RasterView|
            canvas.width == TARGET_SIZE && canvas.height == TARGET_SIZE ==> #[trigger] encoded(
                canvas,
                Format::Png,
            ) is Some,
    ensures
        action is WriteCover,
        before.phase matches Phase::EpisodeCover(source, _) ==> action
            matches Action::WriteCover { filepath, .. } && filepath@ == resized_path(
            cover_of(source),
            TARGET_SIZE as nat,
        ),
{
    assert forall|resized: Result<Vec<u8>, Error>|
        is_normalized(content@, Format::Png, TARGET_SIZE as int, resized) implies resized
        is Ok by {
        cover_is_made(image, Format::Png, TARGET_SIZE as int, resized);
    }
}

/// An episode whose media file is missing ends the conversion with
/// `MissingEnclosure`, which names the media file.
pub proof fn missing_media_ends_the_conversion(
    before: Conversion,
    after: Conversion,
    action: Action,
)
    requires
        before.phase is EpisodeMedia,
        follows(before, Event::MediaMeasured(None), after, action),
    ensures
        after.phase is Done,
        action matches Action::Finish(Err(error)) && error.is_missing_enclosure(
            companion_text(before.phase->EpisodeMedia_0.filepath@, media_extension()),
        ),
{
}

/// A conversion that is over stays over, and no feed comes of it.
pub proof fn over_is_over(before: Conversion, event: Event, after: Conversion, action: Action)
    requires
        before.phase is Done,
        follows(before, event, after, action),
    ensures
        after.phase is Done,
        action matches Action::Finish(Err(_)),
{
}

/// Whatever ends a conversion ends it for good: after `Action::Finish` the
/// conversion is over.
pub proof fn finish_is_the_end(before: Conversion, event: Event, after: Conversion, action: Action)
    requires
        follows(before, event, after, action),
        action is Finish,
    ensures
        after.phase is Done,
{
}

/// A feed comes only at the very end, when the time is told, and it is the
/// feed of the channel with the episodes that are ready, ordered by place in
/// the playlist.
pub proof fn feed_comes_last(before: Conversion, event: Event, after: Conversion, action: Action)
    requires
        follows(before, event, after, action),
        action matches Action::Finish(Ok(_)),
    ensures
        after.phase is Done,
        before.phase matches Phase::Time(info, image) && event matches Event::TimeTold(stamp)
            && action matches Action::Finish(Ok(text)) && is_feed_document(
            before.base_dir@,
            before.base_url@,
            source_views(before.episodes@),
            info@,
            image@,
            stamp@,
            text@,
        ),
{
    finish_is_the_end(before, event, after, action);
}

/// True when `states`, `events` and `actions` are a run of a conversion:
/// each state but the last is told an event, and the next state and the
/// action are how the conversion goes on.
pub open spec fn is_run(states: Seq<Conversion>, events: Seq<Event>, actions: Seq<Action>) -> bool {
    &&& states.len() == events.len() + 1
    &&& actions.len() == events.len()
    &&& forall|i: int|
        0 <= i < events.len() ==> #[trigger] follows(
            states[i],
            events[i],
            states[i + 1],
            actions[i],
        )
}

/// In a run, once the conversion has finished, whatever it is told, it hands
/// out no feed.
pub proof fn no_feed_after_the_end(
    states: Seq<Conversion>,
    events: Seq<Event>,
    actions: Seq<Action>,
    end: int,
    later: int,
)
    requires
        is_run(states, events, actions),
        0 <= end < later < events.len(),
        actions[end] is Finish,
    ensures
        states[later].phase is Done,
        actions[later] matches Action::Finish(Err(_)),
    decreases later - end,
{
    assert(follows(states[end], events[end], states[end + 1], actions[end]));
    finish_is_the_end(states[end], events[end], states[end + 1], actions[end]);
    if later > end + 1 {
        let before = later - 1;
        no_feed_after_the_end(states, events, actions, end, before);
        assert(follows(states[before], events[before], states[before + 1], actions[before]));
        over_is_over(states[before], events[before], states[before + 1], actions[before]);
    }
    assert(follows(states[later], events[later], states[later + 1], actions[later]));
    over_is_over(states[later], events[later], states[later + 1], actions[later]);
}

/// In a run, an episode whose media file is missing leaves the directory
/// without a feed: the conversion ends with `MissingEnclosure` at once, and
/// hands out no feed afterwards.
pub proof fn missing_media_leaves_no_feed(
    states: Seq<Conversion>,
    events: Seq<Event>,
    actions: Seq<Action>,
    at: int,
    later: int,
)
    requires
        is_run(states, events, actions),
        0 <= at <= later < events.len(),
        states[at].phase is EpisodeMedia,
        events[at] == Event::MediaMeasured(None),
    ensures
        actions[at] matches Action::Finish(Err(error)) && error.is_missing_enclosure(
            companion_text(states[at].phase->EpisodeMedia_0.filepath@, media_extension()),
        ),
        actions[later] matches Action::Finish(Err(_)),
{
    assert(follows(states[at], events[at], states[at + 1], actions[at]));
    missing_media_ends_the_conversion(states[at], states[at + 1], actions[at]);
    if later > at {
        no_feed_after_the_end(states, events, actions, at, later);
    }
}

impl Conversion {
    /// Begins the conversion of the channel directory `dirpath` under the
    /// data root `base_dir`, which is served at `base_url`. The first thing
    /// asked is the listing of the directory.
    pub fn start(base_dir: &str, dirpath: &str, base_url: &str) -> (begun: (Conversion, Action))
        ensures
            begun.0.base_dir@ == base_dir@,
            begun.0.base_url@ == base_url@,
            begun.0.dirpath@ == dirpath@,
            begun.0.entries@.len() == 0,
            begun.0.files@.len() == 0,
            begun.0.episodes@.len() == 0,
            begun.0.phase is Listing,
            begun.1@ == (ActionView::ListDirectory { dirpath: dirpath@ }),
            in_order(begun.0),
    {
        let conversion = Conversion {
            base_dir: String::from_str(base_dir),
            base_url: String::from_str(base_url),
            dirpath: String::from_str(dirpath),
            entries: Vec::new(),
            files: Vec::new(),
            episodes: Vec::new(),
            phase: Phase::Listing,
        };
        (conversion, Action::ListDirectory { dirpath: String::from_str(dirpath) })
    }

    /// Ends the conversion with `error`.
    fn fail(self, error: Error) -> (ended: (Conversion, Action))
        ensures
            same_job(self, ended.0),
            same_finds(self, ended.0),
            ends_with(ended.0, ended.1, error),
    {
        let ended = Conversion {
            base_dir: self.base_dir,
            base_url: self.base_url,
            dirpath: self.dirpath,
            entries: self.entries,
            files: self.files,
            episodes: self.episodes,
            phase: Phase::Done,
        };
        (ended, Action::Finish(Err(error)))
    }

    /// Goes on with the next episode, or with the channel where no episode
    /// is left.
    fn advance(self) -> (next: (Conversion, Action))
        ensures
            same_job(self, next.0),
            same_finds(self, next.0),
            moves_on(next.0, next.1),
    {
        let done = self.episodes.len();
        if done < self.files.len() {
            let file = self.files[done].duplicate();
            let action = Action::ReadEpisode { filepath: file.filepath.clone() };
            let next = Conversion {
                base_dir: self.base_dir,
                base_url: self.base_url,
                dirpath: self.dirpath,
                entries: self.entries,
                files: self.files,
                episodes: self.episodes,
                phase: Phase::EpisodeInfo(file),
            };
            (next, action)
        } else {
            match channel::available_channel(self.dirpath.as_str(), &self.entries) {
                Ok(file) => {
                    let action = Action::ReadChannel { filepath: file.filepath.clone() };
                    let next = Conversion {
                        base_dir: self.base_dir,
                        base_url: self.base_url,
                        dirpath: self.dirpath,
                        entries: self.entries,
                        files: self.files,
                        episodes: self.episodes,
                        phase: Phase::ChannelInfo(file),
                    };
                    (next, action)
                },
                Err(error) => self.fail(error),
            }
        }
    }

    /// Takes one step: told `event`, what came of the last request, decides
    /// what to ask next, or ends the conversion.
    ///
    /// A failure ends the conversion with the error that came with it. An
    /// answer that the last request did not ask for ends it with `IoError`.
    /// So does every answer once the conversion is over.
    pub fn step(self, event: Event) -> (next: (Conversion, Action))
        ensures
            follows(self, event, next.0, next.1),
    {
        let Conversion { base_dir, base_url, dirpath, entries, files, episodes, phase } = self;
        let ghost before = self;
        match (phase, event) {
            (Phase::Done, _) => {
                let rest = Conversion {
                    base_dir,
                    base_url,
                    dirpath,
                    entries,
                    files,
                    episodes,
                    phase: Phase::Done,
                };
                rest.fail(Error::IoError(String::from_str("unexpected answer")))
            },
            (_, Event::Failed(error)) => {
                let rest = Conversion {
                    base_dir,
                    base_url,
                    dirpath,
                    entries,
                    files,
                    episodes,
                    phase: Phase::Done,
                };
                rest.fail(error)
            },
            (Phase::Listing, Event::Listed(listed)) => {
                match episode::available_episodes(&listed) {
                    Ok(found) => {
                        let rest = Conversion {
                            base_dir,
                            base_url,
                            dirpath,
                            entries: listed,
                            files: found,
                            episodes: Vec::new(),
                            phase: Phase::Listing,
                        };
                        rest.advance()
                    },
                    Err(error) => {
                        let rest = Conversion {
                            base_dir,
                            base_url,
                            dirpath,
                            entries: listed,
                            files: Vec::new(),
                            episodes: Vec::new(),
                            phase: Phase::Listing,
                        };
                        rest.fail(error)
                    },
                }
            },
            (Phase::EpisodeInfo(file), Event::EpisodeRead(info)) => {
                let action = Action::MeasureMedia { filepath: file.video_filepath() };
                let next = Conversion {
                    base_dir,
                    base_url,
                    dirpath,
                    entries,
                    files,
                    episodes,
                    phase: Phase::EpisodeMedia(file, info),
                };
                (next, action)
            },
            (Phase::EpisodeMedia(file, info), Event::MediaMeasured(length)) => {
                let rest = Conversion {
                    base_dir,
                    base_url,
                    dirpath,
                    entries,
                    files,
                    episodes,
                    phase: Phase::Done,
                };
                match file.parse(info, length) {
                    Ok((info, _, image)) => {
                        let source = (file, info, length);
                        let action = Action::FindCover {
                            filepath: get_resized_image_filepath(image.as_str(), TARGET_SIZE),
                        };
                        let next = Conversion {
                            base_dir: rest.base_dir,
                            base_url: rest.base_url,
                            dirpath: rest.dirpath,
                            entries: rest.entries,
                            files: rest.files,
                            episodes: rest.episodes,
                            phase: Phase::EpisodeCover(source, CoverPhase::Probing),
                        };
                        (next, action)
                    },
                    Err(error) => rest.fail(error),
                }
            },
            (Phase::EpisodeCover(source, cover), event) => {
                let image = source.0.image_filepath();
                let outcome = cover_step(image.as_str(), cover, event);
                assert(cover_follows(cover_of(source), cover, event, outcome));
                match outcome {
                    CoverOutcome::Ready => {
                        let mut episodes = episodes;
                        episodes.push(source);
                        let rest = Conversion {
                            base_dir,
                            base_url,
                            dirpath,
                            entries,
                            files,
                            episodes,
                            phase: Phase::Done,
                        };
                        rest.advance()
                    },
                    CoverOutcome::Next(cover, action) => {
                        let next = Conversion {
                            base_dir,
                            base_url,
                            dirpath,
                            entries,
                            files,
                            episodes,
                            phase: Phase::EpisodeCover(source, cover),
                        };
                        (next, action)
                    },
                    CoverOutcome::Failed(error) => {
                        let rest = Conversion {
                            base_dir,
                            base_url,
                            dirpath,
                            entries,
                            files,
                            episodes,
                            phase: Phase::Done,
                        };
                        rest.fail(error)
                    },
                }
            },
            (Phase::ChannelInfo(file), Event::ChannelRead(info)) => {
                let (info, image) = file.parse(info);
                let action = Action::FindCover {
                    filepath: get_resized_image_filepath(image.as_str(), TARGET_SIZE),
                };
                let next = Conversion {
                    base_dir,
                    base_url,
                    dirpath,
                    entries,
                    files,
                    episodes,
                    phase: Phase::ChannelCover(info, image, CoverPhase::Probing),
                };
                (next, action)
            },
            (Phase::ChannelCover(info, image, cover), event) => {
                let outcome = cover_step(image.as_str(), cover, event);
                match outcome {
                    CoverOutcome::Ready => {
                        let next = Conversion {
                            base_dir,
                            base_url,
                            dirpath,
                            entries,
                            files,
                            episodes,
                            phase: Phase::Time(info, image),
                        };
                        (next, Action::TellTime)
                    },
                    CoverOutcome::Next(cover, action) => {
                        let next = Conversion {
                            base_dir,
                            base_url,
                            dirpath,
                            entries,
                            files,
                            episodes,
                            phase: Phase::ChannelCover(info, image, cover),
                        };
                        (next, action)
                    },
                    CoverOutcome::Failed(error) => {
                        let rest = Conversion {
                            base_dir,
                            base_url,
                            dirpath,
                            entries,
                            files,
                            episodes,
                            phase: Phase::Done,
                        };
                        rest.fail(error)
                    },
                }
            },
            (Phase::Time(info, image), Event::TimeTold(stamp)) => {
                let document = process(
                    base_dir.as_str(),
                    base_url.as_str(),
                    &episodes,
                    &info,
                    image.as_str(),
                    stamp.as_str(),
                );
                let next = Conversion {
                    base_dir,
                    base_url,
                    dirpath,
                    entries,
                    files,
                    episodes,
                    phase: Phase::Done,
                };
                (next, Action::Finish(document))
            },
            _ => {
                let rest = Conversion {
                    base_dir,
                    base_url,
                    dirpath,
                    entries,
                    files,
                    episodes,
                    phase: Phase::Done,
                };
                rest.fail(Error::IoError(String::from_str("unexpected answer")))
            },
        }
    }
}

} // verus!
