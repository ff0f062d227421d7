use podsync::convert::{convert_channel, convert_episode, process};
use podsync::error::Error;
use podsync::info::channel;
use podsync::info::episode;
use podsync::order::sort_by_key;
use podsync::rss;

fn episode_info(guid: &str, playlist_index: u32) -> episode::Info {
    episode::Info {
        guid: guid.to_string(),
        upload_date: "20230102".to_string(),
        playlist_index,
        title: format!("Episode {guid}"),
        link: format!("https://video.example/watch?v={guid}"),
        description: format!("About {guid}"),
        author: "Test Author".to_string(),
        duration_seconds: 125,
    }
}

fn found(guid: &str, playlist_index: u32) -> (episode::InfoFile, episode::Info, Option<u64>) {
    let file = episode::InfoFile {
        pub_date: 20230102,
        youtube_id: guid.to_string(),
        filepath: format!("/data/chan/20230102--{guid}--Title.info.json"),
    };
    (file, episode_info(guid, playlist_index), Some(1000))
}

fn source(guid: &str, playlist_index: u32) -> (episode::Info, episode::Enclosure, String) {
    let file = episode::InfoFile {
        pub_date: 20230102,
        youtube_id: guid.to_string(),
        filepath: format!("/data/chan/20230102--{guid}--Title.info.json"),
    };
    file.parse(episode_info(guid, playlist_index), Some(1000)).unwrap()
}

fn channel_info() -> channel::Info {
    channel::Info {
        upload_date: "20230101".to_string(),
        title: "Test Channel".to_string(),
        description: "All <b>about</b> tests & more".to_string(),
        link: "https://video.example/playlist?list=PL1".to_string(),
        author: "Test Author".to_string(),
    }
}

fn positions(text: &str, needles: &[&str]) -> Vec<usize> {
    needles.iter().map(|needle| text.find(needle).unwrap()).collect()
}

#[test]
fn url_rewriting_strips_the_data_root() {
    let (info, enclosure, image) = source("aaaaaaaaaaa", 1);
    let (item, _) =
        convert_episode("/data", "http://host/feeds", &info, &enclosure, &image).unwrap();
    assert_eq!(
        item.enclosure.file_url,
        "http://host/feeds/chan/20230102--aaaaaaaaaaa--Title.mp4"
    );
    assert_eq!(
        item.image.file_url,
        "http://host/feeds/chan/20230102--aaaaaaaaaaa--Title-1400x1400.png"
    );
}

#[test]
fn episode_becomes_an_item() {
    let (info, enclosure, image) = source("aaaaaaaaaaa", 7);
    let (item, playlist_index) =
        convert_episode("/data", "http://host", &info, &enclosure, &image).unwrap();
    assert_eq!(playlist_index, 7);
    let expected = rss::episode::Episode {
        guid: "aaaaaaaaaaa".to_string(),
        pub_date: "Mon, 02 Jan 2023 09:10:11 +0000".to_string(),
        title: "Episode aaaaaaaaaaa".to_string(),
        link: "https://video.example/watch?v=aaaaaaaaaaa".to_string(),
        description: "About aaaaaaaaaaa".to_string(),
        enclosure: rss::episode::Enclosure {
            file_url: "http://host/chan/20230102--aaaaaaaaaaa--Title.mp4".to_string(),
            file_length: "1000".to_string(),
            file_type: "mp4".to_string(),
        },
        author: "Test Author".to_string(),
        image: rss::episode::Image {
            file_url: "http://host/chan/20230102--aaaaaaaaaaa--Title-1400x1400.png".to_string(),
        },
        duration: "125".to_string(),
        explicit_content: "false".to_string(),
    };
    assert_eq!(item, expected);
}

#[test]
fn episode_with_a_malformed_date_is_refused() {
    let (mut info, enclosure, image) = source("aaaaaaaaaaa", 1);
    info.upload_date = "2023-01-02".to_string();
    let error = convert_episode("/data", "http://host", &info, &enclosure, &image).unwrap_err();
    assert!(matches!(error, Error::MalformedMetadata(text) if text == "2023-01-02"));
}

#[test]
fn episode_outside_the_data_root_is_refused() {
    let (info, enclosure, image) = source("aaaaaaaaaaa", 1);
    let error =
        convert_episode("/elsewhere", "http://host", &info, &enclosure, &image).unwrap_err();
    assert!(matches!(
        error,
        Error::PathOutsideDataRoot(path) if path == "/data/chan/20230102--aaaaaaaaaaa--Title.mp4"
    ));
}

#[test]
fn episode_with_image_outside_the_data_root_is_refused() {
    let (info, enclosure, _) = source("aaaaaaaaaaa", 1);
    let error =
        convert_episode("/data", "http://host", &info, &enclosure, "/tmp/cover.png").unwrap_err();
    assert!(matches!(
        error,
        Error::PathOutsideDataRoot(path) if path == "/tmp/cover-1400x1400.png"
    ));
}

#[test]
fn missing_media_file_is_a_missing_enclosure() {
    let file = episode::InfoFile {
        pub_date: 20230102,
        youtube_id: "aaaaaaaaaaa".to_string(),
        filepath: "/data/chan/20230102--aaaaaaaaaaa--Title.info.json".to_string(),
    };
    let error = file.parse(episode_info("aaaaaaaaaaa", 1), None).unwrap_err();
    assert!(matches!(
        error,
        Error::MissingEnclosure(path) if path == "/data/chan/20230102--aaaaaaaaaaa--Title.mp4"
    ));
}

#[test]
fn present_media_file_is_the_enclosure() {
    let file = episode::InfoFile {
        pub_date: 20230102,
        youtube_id: "aaaaaaaaaaa".to_string(),
        filepath: "/data/chan/20230102--aaaaaaaaaaa--Title.info.json".to_string(),
    };
    let (info, enclosure, image) = file.parse(episode_info("aaaaaaaaaaa", 3), Some(0)).unwrap();
    assert_eq!(info.playlist_index, 3);
    assert_eq!(enclosure.video_filepath, "/data/chan/20230102--aaaaaaaaaaa--Title.mp4");
    assert_eq!(enclosure.video_filelength, 0);
    assert_eq!(enclosure.video_filetype, "mp4");
    assert_eq!(image, "/data/chan/20230102--aaaaaaaaaaa--Title.png");
}

#[test]
fn channel_file_gives_the_image_path() {
    let file = channel::InfoFile {
        youtube_id: "UC0123456789abcdef".to_string(),
        filepath: "/data/chan/NA--UC0123456789abcdef--Videos.info.json".to_string(),
    };
    let (info, image) = file.parse(channel_info());
    assert_eq!(info.title, "Test Channel");
    assert_eq!(image, "/data/chan/NA--UC0123456789abcdef--Videos.jpg");
}

#[test]
fn channel_becomes_the_channel_of_the_feed() {
    let converted = convert_channel(
        "/data",
        "http://host",
        &channel_info(),
        "/data/chan/NA--UC0123456789abcdef--Videos.jpg",
        Vec::new(),
        "Tue, 03 Jan 2023 12:00:00 +0100",
    )
    .unwrap();
    assert_eq!(converted.title, "Test Channel");
    assert_eq!(converted.description, "All <b>about</b> tests & more");
    assert_eq!(converted.link, "https://video.example/playlist?list=PL1");
    assert_eq!(
        converted.image.image_url,
        "http://host/chan/NA--UC0123456789abcdef--Videos-1400x1400.jpg"
    );
    assert_eq!(converted.author, "Test Author");
    assert_eq!(converted.language, "en");
    assert_eq!(converted.last_build_date, "Tue, 03 Jan 2023 12:00:00 +0100");
    assert_eq!(converted.pub_date, "Sun, 01 Jan 2023 09:10:11 +0000");
    assert_eq!(converted.category, "Technology & Science");
    assert_eq!(converted.generator, "ytdlp");
    assert_eq!(converted.explicit_content, "false");
    assert_eq!(converted.channel_type, "Serial");
    assert!(converted.episodes.is_empty());
}

#[test]
fn channel_with_a_malformed_date_is_refused() {
    let mut info = channel_info();
    info.upload_date = "January".to_string();
    let error =
        convert_channel("/data", "http://host", &info, "/data/chan/c.jpg", Vec::new(), "now")
            .unwrap_err();
    assert!(matches!(error, Error::MalformedMetadata(text) if text == "January"));
}

#[test]
fn channel_image_outside_the_data_root_is_refused() {
    let error = convert_channel(
        "/data",
        "http://host",
        &channel_info(),
        "/srv/c.jpg",
        Vec::new(),
        "now",
    )
    .unwrap_err();
    assert!(matches!(error, Error::PathOutsideDataRoot(path) if path == "/srv/c-1400x1400.jpg"));
}

#[test]
fn items_are_sorted_by_key() {
    let sorted = sort_by_key(vec![(3, "c"), (1, "a"), (2, "b")]);
    assert_eq!(sorted, vec![(1, "a"), (2, "b"), (3, "c")]);
}

#[test]
fn items_of_equal_key_keep_their_order() {
    let sorted = sort_by_key(vec![(2, "x"), (1, "p"), (2, "y"), (1, "q"), (2, "z"), (0, "first")]);
    assert_eq!(sorted, vec![(0, "first"), (1, "p"), (1, "q"), (2, "x"), (2, "y"), (2, "z")]);
}

#[test]
fn sorting_nothing_and_one() {
    assert_eq!(sort_by_key(Vec::<(u32, u8)>::new()), Vec::new());
    assert_eq!(sort_by_key(vec![(9, 'a')]), vec![(9, 'a')]);
}

#[test]
fn sorting_does_not_depend_on_arrival() {
    let one = sort_by_key(vec![(5, "e"), (4, "d"), (1, "a"), (3, "c"), (2, "b")]);
    let other = sort_by_key(vec![(2, "b"), (3, "c"), (5, "e"), (1, "a"), (4, "d")]);
    assert_eq!(one, other);
    assert_eq!(one, vec![(1, "a"), (2, "b"), (3, "c"), (4, "d"), (5, "e")]);
}

#[test]
fn feed_lists_items_by_playlist_index() {
    let episodes = vec![found("bbbbbbbbbbb", 2), found("aaaaaaaaaaa", 1)];
    let text = process(
        "/data",
        "http://host/feeds",
        &episodes,
        &channel_info(),
        "/data/chan/NA--UC0123456789abcdef--Videos.jpg",
        "Tue, 03 Jan 2023 12:00:00 +0100",
    )
    .unwrap();
    assert_eq!(text.matches("<item>").count(), 2);
    let found = positions(&text, &["<guid>aaaaaaaaaaa</guid>", "<guid>bbbbbbbbbbb</guid>"]);
    assert!(found[0] < found[1]);
    assert!(text.contains("<title>Test Channel</title>"));
    assert!(text.contains("<pubDate>Sun, 01 Jan 2023 09:10:11 +0000</pubDate>"));
}

#[test]
fn feed_does_not_depend_on_the_order_of_listing() {
    let one = vec![found("ccccccccccc", 3), found("aaaaaaaaaaa", 1), found("bbbbbbbbbbb", 2)];
    let other = vec![found("bbbbbbbbbbb", 2), found("ccccccccccc", 3), found("aaaaaaaaaaa", 1)];
    let image = "/data/chan/NA--UC0123456789abcdef--Videos.jpg";
    let first = process("/data", "http://host", &one, &channel_info(), image, "now").unwrap();
    let second = process("/data", "http://host", &other, &channel_info(), image, "now").unwrap();
    assert_eq!(first, second);
}

#[test]
fn feed_keeps_the_order_of_listing_for_equal_indexes() {
    let episodes = vec![
        found("ccccccccccc", 2),
        found("bbbbbbbbbbb", 1),
        found("aaaaaaaaaaa", 2),
        found("ddddddddddd", 1),
    ];
    let image = "/data/chan/NA--UC0123456789abcdef--Videos.jpg";
    let text = process("/data", "http://host", &episodes, &channel_info(), image, "now").unwrap();
    let found = positions(
        &text,
        &[
            "<guid>bbbbbbbbbbb</guid>",
            "<guid>ddddddddddd</guid>",
            "<guid>ccccccccccc</guid>",
            "<guid>aaaaaaaaaaa</guid>",
        ],
    );
    assert!(found[0] < found[1] && found[1] < found[2] && found[2] < found[3]);
}

#[test]
fn feed_of_a_channel_without_episodes() {
    let text = process(
        "/data",
        "http://host/feeds",
        &Vec::new(),
        &channel_info(),
        "/data/chan/cover.jpg",
        "Tue, 03 Jan 2023 12:00:00 +0100",
    )
    .unwrap();
    let expected = concat_all(&[
        "<?xml version=\"1.0\" encoding=\"UTF-8\"?>\n",
        "<rss version=\"2.0\" xmlns:itunes=\"http://www.itunes.com/dtds/podcast-1.0.dtd\"",
        " xmlns:content=\"http://purl.org/rss/1.0/modules/content/\">",
        "<channel>",
        "<title>Test Channel</title>",
        "<description><![CDATA[All <b>about</b> tests & more]]></description>",
        "<link>https://video.example/playlist?list=PL1</link>",
        "<itunes:image href=\"http://host/feeds/chan/cover-1400x1400.jpg\"/>",
        "<itunes:author>Test Author</itunes:author>",
        "<language>en</language>",
        "<lastBuildDate>Tue, 03 Jan 2023 12:00:00 +0100</lastBuildDate>",
        "<pubDate>Sun, 01 Jan 2023 09:10:11 +0000</pubDate>",
        "<category>Technology &amp; Science</category>",
        "<generator>ytdlp</generator>",
        "<itunes:explicit>false</itunes:explicit>",
        "<itunes:type>Serial</itunes:type>",
        "</channel>",
        "</rss>",
    ]);
    assert_eq!(text, expected);
}

fn concat_all(parts: &[&str]) -> String {
    parts.iter().map(|part| part.to_string()).collect()
}

#[test]
fn feed_stops_at_the_first_episode_that_cannot_be_converted() {
    let mut bad_date = found("bbbbbbbbbbb", 2);
    bad_date.1.upload_date = "tomorrow".to_string();
    let mut outside = found("ccccccccccc", 3);
    outside.0.filepath = "/mnt/20230102--ccccccccccc--Title.info.json".to_string();
    let episodes = vec![found("aaaaaaaaaaa", 1), bad_date, outside];
    let error = process("/data", "http://host", &episodes, &channel_info(), "/srv/c.jpg", "now")
        .unwrap_err();
    assert!(matches!(error, Error::MalformedMetadata(text) if text == "tomorrow"));
}

#[test]
fn episode_without_media_file_leaves_no_feed() {
    let mut missing = found("bbbbbbbbbbb", 1);
    missing.2 = None;
    let episodes = vec![found("aaaaaaaaaaa", 2), missing, found("ccccccccccc", 3)];
    let image = "/data/chan/cover.jpg";
    let error =
        process("/data", "http://host", &episodes, &channel_info(), image, "now").unwrap_err();
    assert!(matches!(
        error,
        Error::MissingEnclosure(path) if path == "/data/chan/20230102--bbbbbbbbbbb--Title.mp4"
    ));
}

#[test]
fn first_episode_that_fails_decides_the_error() {
    let mut missing = found("bbbbbbbbbbb", 2);
    missing.2 = None;
    let mut bad_date = found("aaaaaaaaaaa", 1);
    bad_date.1.upload_date = "20230230".to_string();
    let image = "/data/chan/cover.jpg";
    let error =
        process("/data", "http://host", &vec![bad_date, missing], &channel_info(), image, "now")
            .unwrap_err();
    assert!(matches!(error, Error::MalformedMetadata(text) if text == "20230230"));
}

#[test]
fn media_file_without_bytes_is_an_enclosure() {
    let mut empty = found("aaaaaaaaaaa", 1);
    empty.2 = Some(0);
    let image = "/data/chan/cover.jpg";
    let episodes = vec![empty];
    let text = process("/data", "http://host", &episodes, &channel_info(), image, "now").unwrap();
    assert!(text.contains(" length=\"0\" type=\"mp4\"/>"));
}

#[test]
fn feed_fails_on_the_channel_after_the_episodes() {
    let episodes = vec![found("aaaaaaaaaaa", 1)];
    let error = process("/data", "http://host", &episodes, &channel_info(), "/srv/c.jpg", "now")
        .unwrap_err();
    assert!(matches!(error, Error::PathOutsideDataRoot(path) if path == "/srv/c-1400x1400.jpg"));
}

#[test]
fn item_as_xml() {
    let (info, enclosure, image) = source("aaaaaaaaaaa", 1);
    let (item, _) = convert_episode("/data", "http://host", &info, &enclosure, &image).unwrap();
    let expected = concat_all(&[
        "<item>",
        "<guid>aaaaaaaaaaa</guid>",
        "<pubDate>Mon, 02 Jan 2023 09:10:11 +0000</pubDate>",
        "<title><![CDATA[Episode aaaaaaaaaaa]]></title>",
        "<link>https://video.example/watch?v=aaaaaaaaaaa</link>",
        "<description><![CDATA[About aaaaaaaaaaa]]></description>",
        "<enclosure url=\"http://host/chan/20230102--aaaaaaaaaaa--Title.mp4\"",
        " length=\"1000\" type=\"mp4\"/>",
        "<itunes:author>Test Author</itunes:author>",
        "<itunes:image href=\"http://host/chan/20230102--aaaaaaaaaaa--Title-1400x1400.png\"/>",
        "<itunes:duration>125</itunes:duration>",
        "<itunes:explicit>false</itunes:explicit>",
        "</item>",
    ]);
    assert_eq!(item.to_string().unwrap(), expected);
}

#[test]
fn title_with_markup_stands_in_cdata_as_it_is() {
    let (mut info, enclosure, image) = source("aaaaaaaaaaa", 1);
    info.title = "Q&A <live> \"now\"".to_string();
    let (item, _) = convert_episode("/data", "http://host", &info, &enclosure, &image).unwrap();
    let text = item.to_string().unwrap();
    assert!(text.contains("<title><![CDATA[Q&A <live> \"now\"]]></title>"));
}

#[test]
fn end_of_section_in_a_title_is_cut_in_two() {
    let (mut info, enclosure, image) = source("aaaaaaaaaaa", 1);
    info.title = "x]]>y".to_string();
    info.description = "]]>]]>".to_string();
    let (item, _) = convert_episode("/data", "http://host", &info, &enclosure, &image).unwrap();
    let text = item.to_string().unwrap();
    assert!(text.contains("<title><![CDATA[x]]]]><![CDATA[>y]]></title>"));
    assert!(text.contains(
        "<description><![CDATA[]]]]><![CDATA[>]]]]><![CDATA[>]]></description>"
    ));
}

#[test]
fn brackets_that_end_no_section_stay_together() {
    let (mut info, enclosure, image) = source("aaaaaaaaaaa", 1);
    info.title = "a]] >b]>c]]".to_string();
    let (item, _) = convert_episode("/data", "http://host", &info, &enclosure, &image).unwrap();
    let text = item.to_string().unwrap();
    assert!(text.contains("<title><![CDATA[a]] >b]>c]]]]></title>"));
}

/// The texts of the elements named `tag`, in their order, as a reader of XML
/// finds them.
fn read_back(document: &str, tag: &str) -> Vec<String> {
    let mut inside = false;
    let mut texts = Vec::new();
    for token in hard_xml::xmlparser::Tokenizer::from(document) {
        match token.unwrap() {
            hard_xml::xmlparser::Token::ElementStart { prefix, local, .. } => {
                inside = prefix.is_empty() && local.as_str() == tag;
                if inside {
                    texts.push(String::new());
                }
            }
            hard_xml::xmlparser::Token::Cdata { text, .. } if inside => {
                texts.last_mut().unwrap().push_str(text.as_str());
            }
            hard_xml::xmlparser::Token::Text { text } if inside => {
                let plain = hard_xml::utils::xml_unescape(text.as_str()).unwrap();
                texts.last_mut().unwrap().push_str(&plain);
            }
            _ => {}
        }
    }
    texts
}

#[test]
fn texts_are_read_back_from_the_document() {
    let mut episode = found("aaaaaaaaaaa", 1);
    episode.1.title = "x]]>y & <z> ]]".to_string();
    episode.1.description = "]]>".to_string();
    episode.1.link = "https://video.example/?a=1&b=\"2\"".to_string();
    let image = "/data/chan/cover.jpg";
    let document =
        process("/data", "http://host", &vec![episode], &channel_info(), image, "now").unwrap();
    assert_eq!(read_back(&document, "title"), vec!["Test Channel", "x]]>y & <z> ]]"]);
    assert_eq!(
        read_back(&document, "description"),
        vec!["All <b>about</b> tests & more", "]]>"]
    );
    assert_eq!(
        read_back(&document, "link"),
        vec!["https://video.example/playlist?list=PL1", "https://video.example/?a=1&b=\"2\""]
    );
}

#[test]
fn attribute_with_markup_is_escaped() {
    let enclosure = rss::episode::Enclosure {
        file_url: "http://host/a?b=1&c=<2>&d='3'&e=\"4\"".to_string(),
        file_length: "5".to_string(),
        file_type: "mp4".to_string(),
    };
    assert_eq!(
        enclosure.to_string().unwrap(),
        concat_all(&[
            "<enclosure url=\"http://host/a?b=1&amp;c=&lt;2&gt;&amp;d=&apos;3&apos;",
            "&amp;e=&quot;4&quot;\" length=\"5\" type=\"mp4\"/>",
        ])
    );
}

#[test]
fn plain_text_with_markup_is_escaped() {
    let (mut info, enclosure, image) = source("aaaaaaaaaaa", 1);
    info.author = "Tom & Jerry <tj@example.org>".to_string();
    info.link = "https://video.example/watch?v=a&t=1".to_string();
    let (item, _) = convert_episode("/data", "http://host", &info, &enclosure, &image).unwrap();
    let text = item.to_string().unwrap();
    assert!(text
        .contains("<itunes:author>Tom &amp; Jerry &lt;tj@example.org&gt;</itunes:author>"));
    assert!(text.contains("<link>https://video.example/watch?v=a&amp;t=1</link>"));
}

#[test]
fn images_as_xml() {
    let of_channel = rss::channel::Image { image_url: "http://host/c.jpg".to_string() };
    assert_eq!(of_channel.to_string().unwrap(), "<itunes:image href=\"http://host/c.jpg\"/>");
    let of_episode = rss::episode::Image { file_url: "http://host/e.png".to_string() };
    assert_eq!(of_episode.to_string().unwrap(), "<itunes:image href=\"http://host/e.png\"/>");
}

#[test]
fn text_beyond_ascii_is_kept() {
    let (mut info, enclosure, image) = source("aaaaaaaaaaa", 1);
    info.author = "Zoë & Łukasz — 日本".to_string();
    let (item, _) = convert_episode("/data", "http://host", &info, &enclosure, &image).unwrap();
    let text = item.to_string().unwrap();
    assert!(text.contains("<itunes:author>Zoë &amp; Łukasz — 日本</itunes:author>"));
}

#[test]
fn feed_and_channel_as_xml() {
    let (info, enclosure, image) = source("aaaaaaaaaaa", 1);
    let (item, _) = convert_episode("/data", "http://host", &info, &enclosure, &image).unwrap();
    let item_text = item.to_string().unwrap();
    let converted = convert_channel(
        "/data",
        "http://host",
        &channel_info(),
        "/data/chan/cover.jpg",
        vec![item],
        "now",
    )
    .unwrap();
    let channel_text = converted.to_string().unwrap();
    assert!(channel_text.starts_with("<channel><title>Test Channel</title>"));
    let tail = format!("<itunes:type>Serial</itunes:type>{item_text}</channel>");
    assert!(channel_text.ends_with(&tail));
    let feed = rss::Rss {
        version: "2.0".to_string(),
        namespace: "ns1".to_string(),
        content_namespace: "ns2".to_string(),
        channel: converted,
    };
    let expected = concat_all(&[
        "<rss version=\"2.0\" xmlns:itunes=\"ns1\" xmlns:content=\"ns2\">",
        &channel_text,
        "</rss>",
    ]);
    assert_eq!(feed.to_string().unwrap(), expected);
}
