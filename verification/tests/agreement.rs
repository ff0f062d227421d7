use std::path::Path;

use podsync::convert::replace_base;
use podsync::naming::{match_channel, match_episode};
use podsync::paths::{companion_path, file_name_of, with_extension};

/// Names built from parts that do and do not follow the naming convention.
fn names() -> Vec<String> {
    let fronts = ["", "x", "NA--", "copy-", "20230101--", "NA-", "é"];
    let firsts = [
        "NA--UC0123456789abcdef",
        "NA--UC0123456789abcde",
        "NA--PLabcdefghijklmnopqrstuvwxyz012345",
        "NA--PLabcdefghijklmnopqrstuvwxyz0123456",
        "NA--aaaaaaaaaaaaaaaaaa-",
        "NA--aaaaaaaaa.aaaaaaaaa",
        "20230101--abcdefghijk",
        "2023010--abcdefghijk",
        "20230101--abcdefghij",
        "20230101--abc-éfghijk",
        "2023x101--abcdefghijk",
        "99999999-----------ab",
        "NA",
        "",
    ];
    let middles = ["--", "-", "---", "----", ""];
    let titles = ["", "Title", "My.Title", "a--b", "NA--UC0123456789abcdef--x", "line\nbreak"];
    let ends = [".info.json", ".info.json.bak", ".json", ".info", ".mp4", ""];
    let mut all = Vec::new();
    for front in fronts {
        for first in firsts {
            for middle in middles {
                for title in titles {
                    for end in ends {
                        all.push(format!("{front}{first}{middle}{title}{end}"));
                    }
                }
            }
        }
    }
    all
}

#[test]
fn channel_names_are_read_as_the_pattern_reads_them() {
    let pattern = regex::Regex::new(r"(?s)NA--([a-zA-Z0-9_-]{18,34})--.*\.info\.json$").unwrap();
    let mut accepted = 0;
    for name in names() {
        let expected = pattern.captures(&name).map(|found| found[1].to_string());
        if expected.is_some() {
            accepted += 1;
        }
        assert_eq!(match_channel(&name), expected, "{name:?}");
    }
    assert!(accepted > 100);
}

#[test]
fn episode_names_are_read_as_the_pattern_reads_them() {
    let pattern = regex::Regex::new(r"(?s)([0-9]{8})--(.{11})--.*\.info\.json$").unwrap();
    let mut accepted = 0;
    for name in names() {
        let expected = pattern
            .captures(&name)
            .map(|found| (found[1].parse::<u32>().unwrap(), found[2].to_string()));
        if expected.is_some() {
            accepted += 1;
        }
        assert_eq!(match_episode(&name), expected, "{name:?}");
    }
    assert!(accepted > 100);
}

/// Paths of ordinary shape: no empty file name, no `.` or `..` component.
fn ordinary_paths() -> Vec<String> {
    let dirs = ["", "/", "/data/", "/data/chan/", "rel/", "/a.b/", "/data/chan.d/e/"];
    let files = [
        "file",
        "file.txt",
        "file.info.json",
        "20230101--abcdefghijk--My.Dotted.Title.info.json",
        ".hidden",
        ".hidden.cfg",
        "a.b.c.d",
        "trailing.",
        "é.ü",
    ];
    let mut all = Vec::new();
    for dir in dirs {
        for file in files {
            all.push(format!("{dir}{file}"));
        }
    }
    all
}

#[test]
fn extensions_are_replaced_as_for_paths_of_the_platform() {
    for path in ordinary_paths() {
        for extension in ["", "mp4", "png", "tar.gz"] {
            let expected = Path::new(&path).with_extension(extension);
            assert_eq!(with_extension(&path, extension), expected.to_str().unwrap(), "{path:?}");
        }
    }
}

#[test]
fn companions_are_found_as_for_paths_of_the_platform() {
    for path in ordinary_paths() {
        let expected = Path::new(&path).with_extension("").with_extension("jpg");
        assert_eq!(companion_path(&path, "jpg"), expected.to_str().unwrap(), "{path:?}");
    }
}

#[test]
fn file_names_are_found_as_for_paths_of_the_platform() {
    for path in ordinary_paths() {
        let expected = Path::new(&path).file_name().unwrap();
        assert_eq!(file_name_of(&path), expected.to_str().unwrap(), "{path:?}");
    }
}

#[test]
fn addresses_are_found_as_for_paths_of_the_platform() {
    let roots = ["/data", "/data/", "/", "/srv/pod data", "rel"];
    let urls = ["http://host/feeds", "http://host/feeds/", "https://pod.example"];
    for root in roots {
        for url in urls {
            for path in ordinary_paths() {
                let expected = Path::new(&path)
                    .strip_prefix(root)
                    .ok()
                    .map(|rest| Path::new(url).join(rest).to_string_lossy().to_string());
                assert_eq!(replace_base(root, url, &path).ok(), expected, "{root:?} {path:?}");
            }
        }
    }
}
