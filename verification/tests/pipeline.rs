use std::collections::BTreeMap;

use podsync::error::{Error, ImageFault};
use podsync::info::channel;
use podsync::info::episode;
use podsync::pipeline::{Action, Conversion, Event, Phase};

const NOW: &str = "Tue, 03 Jan 2023 12:00:00 +0100";

/// A channel directory in memory, with a record of what was asked of it.
struct Directory {
    files: BTreeMap<String, Vec<u8>>,
    episodes: BTreeMap<String, (String, u32)>,
    channels: BTreeMap<String, (String, String)>,
    asked: Vec<String>,
}

fn png_of(width: u32, height: u32, color: [u8; 3]) -> Vec<u8> {
    let picture = image::RgbImage::from_pixel(width, height, image::Rgb(color));
    let mut out = std::io::Cursor::new(Vec::new());
    picture.write_to(&mut out, image::ImageFormat::Png).unwrap();
    out.into_inner()
}

fn jpeg_of(width: u32, height: u32, color: [u8; 3]) -> Vec<u8> {
    let picture = image::RgbImage::from_pixel(width, height, image::Rgb(color));
    let mut out = std::io::Cursor::new(Vec::new());
    picture.write_to(&mut out, image::ImageFormat::Jpeg).unwrap();
    out.into_inner()
}

impl Directory {
    fn new() -> Directory {
        Directory {
            files: BTreeMap::new(),
            episodes: BTreeMap::new(),
            channels: BTreeMap::new(),
            asked: Vec::new(),
        }
    }

    fn with_channel(mut self, title: &str, modified_date: &str) -> Directory {
        let stem = "/data/chan/NA--UC0123456789abcdef--Videos".to_string();
        self.files.insert(format!("{stem}.info.json"), Vec::new());
        self.files.insert(format!("{stem}.jpg"), jpeg_of(16, 8, [200, 100, 50]));
        self.channels
            .insert(format!("{stem}.info.json"), (title.to_string(), modified_date.to_string()));
        self
    }

    fn with_episode(mut self, date: &str, guid: &str, playlist_index: u32) -> Directory {
        let stem = format!("/data/chan/{date}--{guid}--Title");
        self.files.insert(format!("{stem}.info.json"), Vec::new());
        self.files.insert(format!("{stem}.mp4"), vec![0; 1000]);
        self.files.insert(format!("{stem}.png"), png_of(4, 8, [10, 20, 30]));
        self.episodes.insert(format!("{stem}.info.json"), (guid.to_string(), playlist_index));
        self
    }

    fn without(mut self, path: &str) -> Directory {
        assert!(self.files.remove(path).is_some());
        self
    }

    fn answer(&mut self, action: Action) -> Result<Event, Result<String, Error>> {
        let missing = |path: &str| Event::Failed(Error::IoError(format!("cannot read {path}")));
        Ok(match action {
            Action::ListDirectory { dirpath } => {
                self.asked.push(format!("list {dirpath}"));
                Event::Listed(self.files.keys().rev().cloned().collect())
            }
            Action::ReadEpisode { filepath } => {
                self.asked.push(format!("episode {filepath}"));
                match self.episodes.get(&filepath) {
                    Some((guid, playlist_index)) => Event::EpisodeRead(episode::Info {
                        guid: guid.clone(),
                        upload_date: "20230102".to_string(),
                        playlist_index: *playlist_index,
                        title: format!("Episode {guid}"),
                        link: format!("https://video.example/watch?v={guid}"),
                        description: String::new(),
                        author: "Test Author".to_string(),
                        duration_seconds: 60,
                    }),
                    None => missing(&filepath),
                }
            }
            Action::MeasureMedia { filepath } => {
                self.asked.push(format!("measure {filepath}"));
                Event::MediaMeasured(self.files.get(&filepath).map(|content| content.len() as u64))
            }
            Action::FindCover { filepath } => {
                self.asked.push(format!("find {filepath}"));
                Event::CoverFound(self.files.contains_key(&filepath))
            }
            Action::ReadCover { filepath } => {
                self.asked.push(format!("read {filepath}"));
                match self.files.get(&filepath) {
                    Some(content) => Event::CoverRead(content.clone()),
                    None => missing(&filepath),
                }
            }
            Action::WriteCover { filepath, content } => {
                self.asked.push(format!("write {filepath}"));
                self.files.insert(filepath, content);
                Event::CoverWritten
            }
            Action::ReadChannel { filepath } => {
                self.asked.push(format!("channel {filepath}"));
                match self.channels.get(&filepath) {
                    Some((title, modified_date)) => Event::ChannelRead(channel::Info {
                        upload_date: modified_date.clone(),
                        title: title.clone(),
                        description: "About the channel".to_string(),
                        link: "https://video.example/playlist".to_string(),
                        author: "Test Author".to_string(),
                    }),
                    None => missing(&filepath),
                }
            }
            Action::TellTime => {
                self.asked.push("time".to_string());
                Event::TimeTold(NOW.to_string())
            }
            Action::Finish(outcome) => return Err(outcome),
        })
    }

    fn convert(&mut self) -> Result<String, Error> {
        self.asked.clear();
        let (mut conversion, mut action) =
            Conversion::start("/data", "/data/chan", "http://host/feeds");
        loop {
            match self.answer(action) {
                Ok(event) => (conversion, action) = conversion.step(event),
                Err(outcome) => {
                    assert!(matches!(conversion.phase, Phase::Done));
                    return outcome;
                }
            }
        }
    }

    fn asked_for(&self, what: &str) -> Vec<&str> {
        self.asked.iter().filter(|asked| asked.starts_with(what)).map(|s| s.as_str()).collect()
    }
}

fn order_of(text: &str, guids: &[&str]) -> Vec<usize> {
    guids.iter().map(|guid| text.find(&format!("<guid>{guid}</guid>")).unwrap()).collect()
}

#[test]
fn conversion_begins_with_the_listing() {
    let (conversion, action) = Conversion::start("/data", "/data/chan", "http://host");
    assert!(matches!(conversion.phase, Phase::Listing));
    assert!(matches!(action, Action::ListDirectory { dirpath } if dirpath == "/data/chan"));
    assert_eq!(conversion.base_dir, "/data");
    assert_eq!(conversion.base_url, "http://host");
    assert_eq!(conversion.dirpath, "/data/chan");
}

#[test]
fn feed_of_a_directory_lists_the_episode_of_playlist_index_one_first() {
    let mut directory = Directory::new()
        .with_channel("Test Channel", "20230101")
        .with_episode("20230101", "bbbbbbbbbbb", 2)
        .with_episode("20230102", "aaaaaaaaaaa", 1);
    let text = directory.convert().unwrap();
    assert!(text.starts_with("<?xml version=\"1.0\" encoding=\"UTF-8\"?>\n<rss version=\"2.0\""));
    assert!(text.ends_with("</channel></rss>"));
    assert!(text.contains("<title>Test Channel</title>"));
    assert!(text.contains("<pubDate>Sun, 01 Jan 2023 09:10:11 +0000</pubDate>"));
    assert!(text.contains(&format!("<lastBuildDate>{NOW}</lastBuildDate>")));
    assert_eq!(text.matches("<item>").count(), 2);
    let found = order_of(&text, &["aaaaaaaaaaa", "bbbbbbbbbbb"]);
    assert!(found[0] < found[1]);
    assert!(text.contains(
        "<enclosure url=\"http://host/feeds/chan/20230102--aaaaaaaaaaa--Title.mp4\" \
         length=\"1000\" type=\"mp4\"/>"
    ));
    assert!(text.contains(
        "<itunes:image href=\"http://host/feeds/chan/20230102--aaaaaaaaaaa--Title-1400x1400.png\"/>"
    ));
    assert!(text.contains(
        "<itunes:image \
         href=\"http://host/feeds/chan/NA--UC0123456789abcdef--Videos-1400x1400.jpg\"/>"
    ));
}

#[test]
fn episodes_are_read_in_the_order_of_their_dates() {
    let mut directory = Directory::new()
        .with_channel("Test Channel", "20230101")
        .with_episode("20230301", "ccccccccccc", 1)
        .with_episode("20230101", "aaaaaaaaaaa", 3)
        .with_episode("20230201", "bbbbbbbbbbb", 2);
    let text = directory.convert().unwrap();
    assert_eq!(
        directory.asked_for("episode"),
        vec![
            "episode /data/chan/20230101--aaaaaaaaaaa--Title.info.json",
            "episode /data/chan/20230201--bbbbbbbbbbb--Title.info.json",
            "episode /data/chan/20230301--ccccccccccc--Title.info.json",
        ]
    );
    let found = order_of(&text, &["ccccccccccc", "bbbbbbbbbbb", "aaaaaaaaaaa"]);
    assert!(found[0] < found[1] && found[1] < found[2]);
    assert_eq!(directory.asked.first().map(|s| s.as_str()), Some("list /data/chan"));
    assert_eq!(directory.asked.last().map(|s| s.as_str()), Some("time"));
}

#[test]
fn covers_are_normalized_beside_the_images() {
    let mut directory = Directory::new()
        .with_channel("Test Channel", "20230101")
        .with_episode("20230101", "aaaaaaaaaaa", 1);
    directory.convert().unwrap();
    assert_eq!(
        directory.asked_for("write"),
        vec![
            "write /data/chan/20230101--aaaaaaaaaaa--Title-1400x1400.png",
            "write /data/chan/NA--UC0123456789abcdef--Videos-1400x1400.jpg",
        ]
    );
    let cover = &directory.files["/data/chan/20230101--aaaaaaaaaaa--Title-1400x1400.png"];
    let square = image::load_from_memory_with_format(cover, image::ImageFormat::Png).unwrap();
    assert_eq!((square.width(), square.height()), (1400, 1400));
    let cover = &directory.files["/data/chan/NA--UC0123456789abcdef--Videos-1400x1400.jpg"];
    let square = image::load_from_memory_with_format(cover, image::ImageFormat::Jpeg).unwrap();
    assert_eq!((square.width(), square.height()), (1400, 1400));
    let source = &directory.files["/data/chan/20230101--aaaaaaaaaaa--Title.png"];
    assert_eq!(source, &png_of(4, 8, [10, 20, 30]));
}

#[test]
fn second_run_keeps_the_covers_and_gives_the_same_feed() {
    let mut directory = Directory::new()
        .with_channel("Test Channel", "20230101")
        .with_episode("20230101", "aaaaaaaaaaa", 1)
        .with_episode("20230102", "bbbbbbbbbbb", 2);
    let first = directory.convert().unwrap();
    assert_eq!(directory.asked_for("read").len(), 3);
    assert_eq!(directory.asked_for("write").len(), 3);
    let covers = directory.files.clone();
    let second = directory.convert().unwrap();
    assert!(directory.asked_for("read").is_empty());
    assert!(directory.asked_for("write").is_empty());
    assert_eq!(directory.asked_for("find").len(), 3);
    assert_eq!(directory.files, covers);
    assert_eq!(first, second);
}

#[test]
fn existing_cover_is_kept_whatever_it_holds() {
    let mut directory = Directory::new()
        .with_channel("Test Channel", "20230101")
        .with_episode("20230101", "aaaaaaaaaaa", 1);
    let kept = "/data/chan/20230101--aaaaaaaaaaa--Title-1400x1400.png";
    directory.files.insert(kept.to_string(), b"kept".to_vec());
    directory.convert().unwrap();
    assert_eq!(
        directory.asked_for("write"),
        vec!["write /data/chan/NA--UC0123456789abcdef--Videos-1400x1400.jpg"]
    );
    assert_eq!(directory.files["/data/chan/20230101--aaaaaaaaaaa--Title-1400x1400.png"], b"kept");
}

#[test]
fn missing_media_file_ends_the_conversion_without_a_feed() {
    let mut directory = Directory::new()
        .with_channel("Test Channel", "20230101")
        .with_episode("20230101", "aaaaaaaaaaa", 1)
        .with_episode("20230102", "bbbbbbbbbbb", 2)
        .with_episode("20230103", "ccccccccccc", 3)
        .without("/data/chan/20230102--bbbbbbbbbbb--Title.mp4");
    let error = directory.convert().unwrap_err();
    assert!(matches!(
        error,
        Error::MissingEnclosure(path) if path == "/data/chan/20230102--bbbbbbbbbbb--Title.mp4"
    ));
    assert_eq!(
        directory.asked.last().map(|s| s.as_str()),
        Some("measure /data/chan/20230102--bbbbbbbbbbb--Title.mp4")
    );
    assert_eq!(directory.asked_for("episode").len(), 2);
    assert!(directory.asked_for("channel").is_empty());
    assert!(directory.asked_for("time").is_empty());
}

#[test]
fn directory_without_channel_file_has_no_feed() {
    let mut directory = Directory::new().with_episode("20230101", "aaaaaaaaaaa", 1);
    let error = directory.convert().unwrap_err();
    assert!(matches!(error, Error::MissingChannelMetadata(dir) if dir == "/data/chan"));
    assert_eq!(directory.asked_for("episode").len(), 1);
}

#[test]
fn directory_with_two_channel_files_has_no_feed() {
    let mut directory = Directory::new().with_channel("Test Channel", "20230101");
    directory
        .files
        .insert("/data/chan/NA--PL0123456789abcdefgh--Other.info.json".to_string(), Vec::new());
    let error = directory.convert().unwrap_err();
    assert!(matches!(error, Error::AmbiguousChannelMetadata(dir) if dir == "/data/chan"));
}

#[test]
fn episode_file_with_a_bad_date_ends_the_conversion_at_the_listing() {
    let mut directory = Directory::new()
        .with_channel("Test Channel", "20230101")
        .with_episode("20230101", "aaaaaaaaaaa", 1)
        .with_episode("20231345", "bbbbbbbbbbb", 2);
    let error = directory.convert().unwrap_err();
    assert!(matches!(
        error,
        Error::MalformedMetadata(path)
            if path == "/data/chan/20231345--bbbbbbbbbbb--Title.info.json"
    ));
    assert_eq!(directory.asked, vec!["list /data/chan"]);
}

#[test]
fn empty_directory_has_no_feed() {
    let error = Directory::new().convert().unwrap_err();
    assert!(matches!(error, Error::MissingChannelMetadata(_)));
}

#[test]
fn channel_without_episodes_has_a_feed_without_items() {
    let mut directory = Directory::new().with_channel("Test Channel", "20230101");
    let text = directory.convert().unwrap();
    assert_eq!(text.matches("<item>").count(), 0);
    assert!(text.contains("<title>Test Channel</title>"));
}

#[test]
fn failure_of_an_episode_comes_before_the_missing_channel() {
    let mut directory = Directory::new()
        .with_episode("20230101", "aaaaaaaaaaa", 1)
        .without("/data/chan/20230101--aaaaaaaaaaa--Title.mp4");
    let error = directory.convert().unwrap_err();
    assert!(matches!(error, Error::MissingEnclosure(_)));
}

#[test]
fn image_that_cannot_be_decoded_ends_the_conversion() {
    let mut directory = Directory::new()
        .with_channel("Test Channel", "20230101")
        .with_episode("20230101", "aaaaaaaaaaa", 1);
    directory
        .files
        .insert("/data/chan/20230101--aaaaaaaaaaa--Title.png".to_string(), b"scrambled".to_vec());
    let error = directory.convert().unwrap_err();
    assert!(matches!(error, Error::ImageError(ImageFault::Codec(_))));
    assert!(directory.asked_for("write").is_empty());
}

#[test]
fn missing_image_ends_the_conversion_with_the_failure_told() {
    let mut directory = Directory::new()
        .with_channel("Test Channel", "20230101")
        .with_episode("20230101", "aaaaaaaaaaa", 1)
        .without("/data/chan/20230101--aaaaaaaaaaa--Title.png");
    let error = directory.convert().unwrap_err();
    assert!(matches!(
        error,
        Error::IoError(text) if text == "cannot read /data/chan/20230101--aaaaaaaaaaa--Title.png"
    ));
}

#[test]
fn malformed_date_of_the_channel_ends_the_conversion() {
    let mut directory = Directory::new()
        .with_channel("Test Channel", "1 Jan 2023")
        .with_episode("20230101", "aaaaaaaaaaa", 1);
    let error = directory.convert().unwrap_err();
    assert!(matches!(error, Error::MalformedMetadata(text) if text == "1 Jan 2023"));
}

#[test]
fn failure_told_ends_the_conversion_with_its_error() {
    let (conversion, _) = Conversion::start("/data", "/data/chan", "http://host");
    let told = Error::MalformedMetadata("expected value at line 1 column 1".to_string());
    let (conversion, action) = conversion.step(Event::Failed(told));
    assert!(matches!(conversion.phase, Phase::Done));
    assert!(matches!(
        action,
        Action::Finish(Err(Error::MalformedMetadata(text)))
            if text == "expected value at line 1 column 1"
    ));
}

#[test]
fn answer_out_of_turn_ends_the_conversion() {
    let (conversion, _) = Conversion::start("/data", "/data/chan", "http://host");
    let (conversion, action) = conversion.step(Event::CoverFound(true));
    assert!(matches!(conversion.phase, Phase::Done));
    assert!(
        matches!(action, Action::Finish(Err(Error::IoError(text))) if text == "unexpected answer")
    );
}

#[test]
fn conversion_that_is_over_stays_over() {
    let (conversion, _) = Conversion::start("/data", "/data/chan", "http://host");
    let (conversion, _) = conversion.step(Event::Listed(Vec::new()));
    assert!(matches!(conversion.phase, Phase::Done));
    let (conversion, action) = conversion.step(Event::TimeTold(NOW.to_string()));
    assert!(matches!(conversion.phase, Phase::Done));
    assert!(matches!(action, Action::Finish(Err(Error::IoError(_)))));
}

#[test]
fn steps_of_one_episode() {
    let (conversion, _) = Conversion::start("/data", "/data/chan", "http://host");
    let listed = vec![
        "/data/chan/20230101--aaaaaaaaaaa--Title.info.json".to_string(),
        "/data/chan/NA--UC0123456789abcdef--Videos.info.json".to_string(),
    ];
    let (conversion, action) = conversion.step(Event::Listed(listed));
    assert_eq!(conversion.files.len(), 1);
    assert!(matches!(
        action,
        Action::ReadEpisode { filepath }
            if filepath == "/data/chan/20230101--aaaaaaaaaaa--Title.info.json"
    ));
    let info = episode::Info {
        guid: "aaaaaaaaaaa".to_string(),
        upload_date: "20230101".to_string(),
        playlist_index: 1,
        title: String::new(),
        link: String::new(),
        description: String::new(),
        author: String::new(),
        duration_seconds: 1,
    };
    let (conversion, action) = conversion.step(Event::EpisodeRead(info));
    assert!(matches!(
        action,
        Action::MeasureMedia { filepath }
            if filepath == "/data/chan/20230101--aaaaaaaaaaa--Title.mp4"
    ));
    let (conversion, action) = conversion.step(Event::MediaMeasured(Some(5)));
    assert!(matches!(
        action,
        Action::FindCover { filepath }
            if filepath == "/data/chan/20230101--aaaaaaaaaaa--Title-1400x1400.png"
    ));
    let (conversion, action) = conversion.step(Event::CoverFound(false));
    assert!(matches!(
        action,
        Action::ReadCover { filepath } if filepath == "/data/chan/20230101--aaaaaaaaaaa--Title.png"
    ));
    assert!(conversion.episodes.is_empty());
    let (conversion, action) = conversion.step(Event::CoverRead(png_of(2, 2, [1, 1, 1])));
    assert!(matches!(
        action,
        Action::WriteCover { filepath, .. }
            if filepath == "/data/chan/20230101--aaaaaaaaaaa--Title-1400x1400.png"
    ));
    let (conversion, action) = conversion.step(Event::CoverWritten);
    assert_eq!(conversion.episodes.len(), 1);
    assert!(matches!(
        action,
        Action::ReadChannel { filepath }
            if filepath == "/data/chan/NA--UC0123456789abcdef--Videos.info.json"
    ));
    assert!(matches!(conversion.phase, Phase::ChannelInfo(_)));
}
