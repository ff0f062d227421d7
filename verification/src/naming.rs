//! The naming convention of metadata sidecar files.
//!
//! A channel's metadata file is named with the marker `NA--`, the channel's
//! identifier of 18 to 34 letters, digits, hyphens or underscores, the
//! separator `--`, and any text that ends in `.info.json`. An episode's
//! metadata file is named with eight digits of an upload date, the separator,
//! an identifier of exactly eleven characters, the separator again, and any
//! text that ends in `.info.json`. Text may come before the marker or the
//! date; where a name can be read in more than one way, the leftmost reading
//! counts, and of those the one with the longest identifier.

use vstd::prelude::*;
use crate::paths::{is_metadata_path, metadata_suffix};
use crate::text::{
    all_digits, chars_of, digits_value, has_suffix, matches_at, occurs_at, parse_digits,
    slice_text,
};

verus! {

/// The text that opens a channel's identifier in a file name.
pub open spec fn channel_marker() -> Seq<char> {
    "NA--"@
}

/// The text that closes an identifier or a date in a file name.
pub open spec fn separator() -> Seq<char> {
    "--"@
}

/// True when `c` may occur in a channel's identifier.
pub open spec fn is_id_char(c: char) -> bool {
    ('a' <= c && c <= 'z') || ('A' <= c && c <= 'Z') || ('0' <= c && c <= '9') || c == '-' || c
        == '_'
}

/// True when `name` reads as a channel's metadata file with the marker at
/// `start` and an identifier of `id_len` characters.
pub open spec fn channel_match(name: Seq<char>, start: int, id_len: int) -> bool {
    &&& 18 <= id_len <= 34
    &&& occurs_at(name, start, channel_marker())
    &&& occurs_at(name, start + 4 + id_len, separator())
    &&& forall|k: int| start + 4 <= k < start + 4 + id_len ==> is_id_char(#[trigger] name[k])
    &&& start + 4 + id_len + 2 + 10 <= name.len()
    &&& has_suffix(name, metadata_suffix())
}

/// True when `name` is the name of a channel's metadata file.
pub open spec fn is_channel_name(name: Seq<char>) -> bool {
    exists|start: int, id_len: int| channel_match(name, start, id_len)
}

/// True when the reading of `name` with the marker at `start` and an
/// identifier of `id_len` characters is the one that counts.
pub open spec fn channel_capture(name: Seq<char>, start: int, id_len: int) -> bool {
    &&& channel_match(name, start, id_len)
    &&& forall|s: int, n: int| s < start ==> !channel_match(name, s, n)
    &&& forall|n: int| n > id_len ==> !channel_match(name, start, n)
}

/// The identifier that a reading of a channel's file name holds.
pub open spec fn channel_id_at(name: Seq<char>, start: int, id_len: int) -> Seq<char> {
    name.subrange(start + 4, start + 4 + id_len)
}

/// Where the marker starts and how long the identifier is in the reading of
/// `name` that counts.
pub open spec fn channel_reading(name: Seq<char>) -> (int, int) {
    choose|start: int, id_len: int| channel_capture(name, start, id_len)
}

/// The channel's identifier that the file name `name` holds.
pub open spec fn channel_id(name: Seq<char>) -> Seq<char> {
    channel_id_at(name, channel_reading(name).0, channel_reading(name).1)
}

/// Only one reading of a channel's file name counts.
pub proof fn lemma_channel_reading(name: Seq<char>, start: int, id_len: int)
    requires
        channel_capture(name, start, id_len),
    ensures
        is_channel_name(name),
        channel_reading(name) == (start, id_len),
{
    let (s, n) = channel_reading(name);
    assert(channel_capture(name, s, n));
    if s < start {
        assert(!channel_match(name, s, n));
    }
    if start < s {
        assert(!channel_match(name, start, id_len));
    }
}

/// True when `name` reads as an episode's metadata file with the date at `start`.
pub open spec fn episode_match(name: Seq<char>, start: int) -> bool {
    &&& 0 <= start
    &&& start + 8 + 2 + 11 + 2 + 10 <= name.len()
    &&& all_digits(name.subrange(start, start + 8))
    &&& occurs_at(name, start + 8, separator())
    &&& occurs_at(name, start + 21, separator())
    &&& has_suffix(name, metadata_suffix())
}

/// True when `name` is the name of an episode's metadata file.
pub open spec fn is_episode_name(name: Seq<char>) -> bool {
    exists|start: int| episode_match(name, start)
}

/// True when the reading of `name` with the date at `start` is the one that counts.
pub open spec fn episode_capture(name: Seq<char>, start: int) -> bool {
    &&& episode_match(name, start)
    &&& forall|s: int| s < start ==> !episode_match(name, s)
}

/// The upload date that a reading of an episode's file name holds, as the
/// number that its eight digits spell.
pub open spec fn episode_date_at(name: Seq<char>, start: int) -> int {
    digits_value(name.subrange(start, start + 8))
}

/// The identifier that a reading of an episode's file name holds.
pub open spec fn episode_id_at(name: Seq<char>, start: int) -> Seq<char> {
    name.subrange(start + 10, start + 21)
}

/// Where the date starts in the reading of `name` that counts.
pub open spec fn episode_start(name: Seq<char>) -> int {
    choose|start: int| episode_capture(name, start)
}

/// The upload date that the file name `name` holds, as the number that its
/// eight digits spell.
pub open spec fn episode_date(name: Seq<char>) -> int {
    episode_date_at(name, episode_start(name))
}

/// The episode's identifier that the file name `name` holds.
pub open spec fn episode_id(name: Seq<char>) -> Seq<char> {
    episode_id_at(name, episode_start(name))
}

/// Only one reading of an episode's file name counts.
pub proof fn lemma_episode_reading(name: Seq<char>, start: int)
    requires
        episode_capture(name, start),
    ensures
        is_episode_name(name),
        episode_start(name) == start,
{
    let s = episode_start(name);
    assert(episode_capture(name, s));
    if s < start {
        assert(!episode_match(name, s));
    }
    if start < s {
        assert(!episode_match(name, start));
    }
}

/// Among the readings of a channel's file name with the marker at `start`
/// there is a longest one.
proof fn lemma_longest_reading(name: Seq<char>, start: int, known: int, limit: int) -> (longest:
    int)
    requires
        channel_match(name, start, known),
        known <= limit,
        forall|n: int| n > limit ==> !channel_match(name, start, n),
    ensures
        known <= longest <= limit,
        channel_match(name, start, longest),
        forall|n: int| n > longest ==> !channel_match(name, start, n),
    decreases limit - known,
{
    if channel_match(name, start, limit) {
        limit
    } else {
        lemma_longest_reading(name, start, known, limit - 1)
    }
}

/// A file named as the convention says for an episode is read back: the
/// date, the separator, an identifier of eleven characters, the separator,
/// any title and `.info.json` give a name of an episode's metadata file that
/// holds this date and this identifier.
pub proof fn episode_name_reads_back(date: Seq<char>, id: Seq<char>, title: Seq<char>)
    requires
        date.len() == 8,
        all_digits(date),
        id.len() == 11,
    ensures
        ({
            let name = date + separator() + id + separator() + title + metadata_suffix();
            &&& is_episode_name(name)
            &&& episode_date(name) == digits_value(date)
            &&& episode_id(name) == id
        }),
{
    reveal_strlit("--");
    reveal_strlit(".info.json");
    let name = date + separator() + id + separator() + title + metadata_suffix();
    assert(name.subrange(0, 8) =~= date);
    assert(name.subrange(8, 10) =~= separator());
    assert(name.subrange(10, 21) =~= id);
    assert(name.subrange(21, 23) =~= separator());
    assert(name.subrange(name.len() - 10, name.len() as int) =~= metadata_suffix());
    assert(episode_match(name, 0));
    assert(episode_capture(name, 0));
    lemma_episode_reading(name, 0);
}

/// A file named as the convention says for a channel is read back: the
/// marker, an identifier of 18 to 34 letters, digits, hyphens or
/// underscores, the separator, any title and `.info.json` give a name of a
/// channel's metadata file, read from its first character on. The
/// identifier that it holds begins with this identifier.
pub proof fn channel_name_reads_back(id: Seq<char>, title: Seq<char>)
    requires
        18 <= id.len() <= 34,
        forall|i: int| 0 <= i < id.len() ==> is_id_char(#[trigger] id[i]),
    ensures
        ({
            let name = channel_marker() + id + separator() + title + metadata_suffix();
            &&& is_channel_name(name)
            &&& channel_reading(name).0 == 0
            &&& channel_reading(name).1 >= id.len()
            &&& channel_id(name).subrange(0, id.len() as int) == id
        }),
{
    reveal_strlit("NA--");
    reveal_strlit("--");
    reveal_strlit(".info.json");
    let name = channel_marker() + id + separator() + title + metadata_suffix();
    let n = id.len() as int;
    assert(name.subrange(0, 4) =~= channel_marker());
    assert(name.subrange(4 + n, 4 + n + 2) =~= separator());
    assert(name.subrange(name.len() - 10, name.len() as int) =~= metadata_suffix());
    assert forall|k: int| 4 <= k < 4 + n implies is_id_char(#[trigger] name[k]) by {
        assert(name[k] == id[k - 4]);
    }
    assert(channel_match(name, 0, n));
    let longest = lemma_longest_reading(name, 0, n, 34);
    assert(channel_capture(name, 0, longest));
    lemma_channel_reading(name, 0, longest);
    assert(channel_id(name).subrange(0, n) =~= id);
}

/// A name that follows the convention ends in `.info.json` and is longer
/// than that.
pub proof fn lemma_names_end_in_metadata_suffix(name: Seq<char>)
    requires
        is_channel_name(name) || is_episode_name(name),
    ensures
        has_suffix(name, metadata_suffix()),
        name.len() > metadata_suffix().len(),
{
    reveal_strlit(".info.json");
    if is_channel_name(name) {
        let (start, id_len) = choose|start: int, id_len: int| channel_match(name, start, id_len);
        assert(channel_match(name, start, id_len));
    } else {
        let start = choose|start: int| episode_match(name, start);
        assert(episode_match(name, start));
    }
}

/// Tells whether `c` may occur in a channel's identifier.
pub fn is_id(c: char) -> (yes: bool)
    ensures
        yes == is_id_char(c),
{
    (c >= 'a' && c <= 'z') || (c >= 'A' && c <= 'Z') || (c >= '0' && c <= '9') || c == '-' || c
        == '_'
}

/// Reads `name` as the name of a channel's metadata file and returns the
/// channel's identifier, or `None` where `name` is no such name.
pub fn match_channel(name: &str) -> (id: Option<String>)
    ensures
        match id {
            Some(id) => is_channel_name(name@) && id@ == channel_id(name@),
            None => !is_channel_name(name@),
        },
{
    let chars = chars_of(name);
    let n = chars.len();
    if !is_metadata_path(&chars) || n < 34 {
        return None;
    }
    let marker = chars_of("NA--");
    let dashes = chars_of("--");
    proof {
        reveal_strlit("NA--");
        reveal_strlit("--");
        reveal_strlit(".info.json");
    }
    let mut start: usize = 0;
    while start <= n - 34
        invariant
            n == chars@.len(),
            n >= 34,
            chars@ == name@,
            marker@ == channel_marker(),
            dashes@ == separator(),
            marker@.len() == 4,
            dashes@.len() == 2,
            has_suffix(name@, metadata_suffix()),
            forall|s: int, m: int| s < start ==> !channel_match(name@, s, m),
        decreases n - start,
    {
        if matches_at(&chars, start, &marker) {
            let mut run: usize = 0;
            while run < 34 && run < n - start - 4 && is_id(chars[start + 4 + run])
                invariant
                    n == chars@.len(),
                    start + 34 <= n,
                    run <= 34,
                    start + 4 + run <= n,
                    chars@ == name@,
                    forall|k: int|
                        start + 4 <= k < start + 4 + run ==> is_id_char(#[trigger] name@[k]),
                decreases 34 - run,
            {
                run += 1;
            }
            let mut len: usize = run;
            while len >= 18
                invariant
                    n == chars@.len(),
                    start + 34 <= n,
                    len <= run <= 34,
                    start + 4 + run <= n,
                    chars@ == name@,
                    dashes@ == separator(),
                    dashes@.len() == 2,
                    marker@.len() == 4,
                    occurs_at(name@, start as int, channel_marker()),
                    has_suffix(name@, metadata_suffix()),
                    forall|k: int|
                        start + 4 <= k < start + 4 + run ==> is_id_char(#[trigger] name@[k]),
                    run < 34 ==> (start + 4 + run >= n || !is_id_char(name@[start + 4 + run])),
                    forall|s: int, m: int| s < start ==> !channel_match(name@, s, m),
                    forall|m: int| m > len ==> !channel_match(name@, start as int, m),
                decreases len,
            {
                if len + 16 <= n - start && matches_at(&chars, start + 4 + len, &dashes) {
                    assert(channel_match(name@, start as int, len as int));
                    assert(channel_capture(name@, start as int, len as int));
                    proof {
                        lemma_channel_reading(name@, start as int, len as int);
                    }
                    return Some(slice_text(name, start + 4, start + 4 + len));
                }
                len -= 1;
            }
        }
        start += 1;
    }
    assert forall|s: int, m: int| !channel_match(name@, s, m) by {
        if channel_match(name@, s, m) {
            assert(s + 34 <= n);
        }
    }
    None
}

/// Reads `name` as the name of an episode's metadata file and returns the
/// upload date, as the number that its eight digits spell, and the episode's
/// identifier, or `None` where `name` is no such name.
pub fn match_episode(name: &str) -> (found: Option<(u32, String)>)
    ensures
        match found {
            Some((date, id)) => is_episode_name(name@) && date == episode_date(name@) && id@
                == episode_id(name@),
            None => !is_episode_name(name@),
        },
{
    let chars = chars_of(name);
    let n = chars.len();
    if !is_metadata_path(&chars) || n < 33 {
        return None;
    }
    let dashes = chars_of("--");
    proof {
        reveal_strlit("--");
        reveal_strlit(".info.json");
    }
    let mut start: usize = 0;
    while start <= n - 33
        invariant
            n == chars@.len(),
            n >= 33,
            chars@ == name@,
            dashes@ == separator(),
            dashes@.len() == 2,
            has_suffix(name@, metadata_suffix()),
            forall|s: int| s < start ==> !episode_match(name@, s),
        decreases n - start,
    {
        if matches_at(&chars, start + 8, &dashes) && matches_at(&chars, start + 21, &dashes) {
            if let Some(date) = parse_digits(&chars, start, start + 8) {
                assert(episode_match(name@, start as int));
                assert(episode_capture(name@, start as int));
                proof {
                    lemma_episode_reading(name@, start as int);
                }
                return Some((date, slice_text(name, start + 10, start + 21)));
            }
        }
        start += 1;
    }
    assert forall|s: int| !episode_match(name@, s) by {
        if episode_match(name@, s) {
            assert(s + 33 <= n);
        }
    }
    None
}

} // verus!
