use podsync::convert::{get_resized_image_filepath, replace_base};
use podsync::error::Error;
use podsync::info::channel;
use podsync::info::episode;
use podsync::paths::{append_ext, companion_path, file_name_of, with_extension};
use podsync::text::decimal;

#[test]
fn file_name_is_what_follows_the_last_separator() {
    assert_eq!(file_name_of("/data/chan/file.info.json"), "file.info.json");
    assert_eq!(file_name_of("file.txt"), "file.txt");
    assert_eq!(file_name_of("/data/chan/"), "");
    assert_eq!(file_name_of(""), "");
}

#[test]
fn replacing_an_extension() {
    assert_eq!(with_extension("/d/a.info.json", ""), "/d/a.info");
    assert_eq!(with_extension("/d/a.info", "mp4"), "/d/a.mp4");
    assert_eq!(with_extension("/d/a", "mp4"), "/d/a.mp4");
    assert_eq!(with_extension("/d.e/a", "mp4"), "/d.e/a.mp4");
    assert_eq!(with_extension("/d/.hidden", "txt"), "/d/.hidden.txt");
    assert_eq!(with_extension("/d/.hidden.cfg", "txt"), "/d/.hidden.txt");
    assert_eq!(with_extension("a.b", ""), "a");
}

#[test]
fn companion_replaces_the_compound_extension() {
    assert_eq!(
        companion_path("/data/chan/20230101--abcdefghijk--Title.info.json", "mp4"),
        "/data/chan/20230101--abcdefghijk--Title.mp4"
    );
    assert_eq!(
        companion_path("/data/chan/20230101--abcdefghijk--My.Dotted.Title.info.json", "png"),
        "/data/chan/20230101--abcdefghijk--My.Dotted.Title.png"
    );
}

#[test]
fn episode_files_have_media_and_image_beside_them() {
    let file = episode::InfoFile::from_path("/data/chan/20230101--abcdefghijk--Title.info.json")
        .unwrap();
    assert_eq!(file.video_filepath(), "/data/chan/20230101--abcdefghijk--Title.mp4");
    assert_eq!(file.image_filepath(), "/data/chan/20230101--abcdefghijk--Title.png");
}

#[test]
fn channel_files_have_an_image_beside_them() {
    let path = "/data/chan/NA--UC0123456789abcdef--Videos.info.json";
    let file = channel::InfoFile::from_path(path).unwrap();
    assert_eq!(file.image_filepath(), "/data/chan/NA--UC0123456789abcdef--Videos.jpg");
}

#[test]
fn resized_image_is_named_after_the_side_length() {
    assert_eq!(get_resized_image_filepath("/d/cover.jpg", 1400), "/d/cover-1400x1400.jpg");
    assert_eq!(get_resized_image_filepath("cover.png", 64), "cover-64x64.png");
}

#[test]
fn resized_image_keeps_dots_in_the_name() {
    assert_eq!(
        get_resized_image_filepath("/d/My.Dotted.Title.jpg", 1400),
        "/d/My.Dotted.Title-1400x1400.jpg"
    );
}

#[test]
fn resized_image_without_extension() {
    assert_eq!(get_resized_image_filepath("/d.e/cover", 1400), "/d.e/cover-1400x1400");
}

#[test]
fn appended_extension_replaces_nothing() {
    assert_eq!(append_ext("xml", "/data/chan1"), "/data/chan1.xml");
    assert_eq!(append_ext("xml", "/data/chan.v2"), "/data/chan.v2.xml");
    assert_eq!(append_ext("app", "foo/bar/baz.txt"), "foo/bar/baz.txt.app");
}

#[test]
fn decimal_numerals() {
    assert_eq!(decimal(0), "0");
    assert_eq!(decimal(7), "7");
    assert_eq!(decimal(10), "10");
    assert_eq!(decimal(1400), "1400");
    assert_eq!(decimal(1234567890), "1234567890");
    assert_eq!(decimal(u64::MAX), "18446744073709551615");
}

#[test]
fn url_of_a_file_below_the_data_root() {
    let url = replace_base("/data", "http://host/feeds", "/data/chan1/ep1.mp4").unwrap();
    assert_eq!(url, "http://host/feeds/chan1/ep1.mp4");
}

#[test]
fn url_with_separators_at_the_ends() {
    assert_eq!(
        replace_base("/data/", "http://host/feeds", "/data/chan1/ep1.mp4").unwrap(),
        "http://host/feeds/chan1/ep1.mp4"
    );
    assert_eq!(
        replace_base("/data", "http://host/feeds/", "/data/chan1/ep1.mp4").unwrap(),
        "http://host/feeds/chan1/ep1.mp4"
    );
    assert_eq!(
        replace_base("/data", "http://host/feeds", "/data//chan1/ep1.mp4").unwrap(),
        "http://host/feeds/chan1/ep1.mp4"
    );
}

#[test]
fn url_keeps_the_separators_below_the_root() {
    assert_eq!(
        replace_base("/srv/data", "https://pod.example", "/srv/data/a/b/c/d.png").unwrap(),
        "https://pod.example/a/b/c/d.png"
    );
}

#[test]
fn url_of_the_data_root_itself() {
    assert_eq!(replace_base("/data", "http://host", "/data").unwrap(), "http://host/");
}

#[test]
fn file_outside_the_data_root_is_refused() {
    let error = replace_base("/data", "http://host/feeds", "/other/chan1/ep1.mp4").unwrap_err();
    assert!(matches!(error, Error::PathOutsideDataRoot(path) if path == "/other/chan1/ep1.mp4"));
}

#[test]
fn sibling_with_the_root_as_prefix_is_outside() {
    let error = replace_base("/data", "http://host/feeds", "/database/ep1.mp4").unwrap_err();
    assert!(matches!(error, Error::PathOutsideDataRoot(path) if path == "/database/ep1.mp4"));
}

#[test]
fn shorter_path_than_the_root_is_outside() {
    let error = replace_base("/data/chan", "http://host", "/data").unwrap_err();
    assert!(matches!(error, Error::PathOutsideDataRoot(_)));
}
