//! File paths as text: file names, extensions and companion files.
//!
//! A path is a sequence of characters whose components are separated by `/`.
//! The file name is what follows the last separator. Its extension starts at
//! the last `.` of the file name, unless that `.` is the first character of
//! the file name.

use vstd::prelude::*;
use crate::text::{chars_of, has_suffix, slice_text};

verus! {

/// The compound extension that every metadata sidecar file carries.
pub open spec fn metadata_suffix() -> Seq<char> {
    ".info.json"@
}

/// The index of the last occurrence of `c` in `s`, or -1 where there is none.
pub open spec fn last_index_of(s: Seq<char>, c: char) -> int
    decreases s.len(),
{
    if s.len() == 0 {
        -1
    } else if s.last() == c {
        s.len() - 1
    } else {
        last_index_of(s.drop_last(), c)
    }
}

/// The index at which the file name of `path` starts.
pub open spec fn name_start(path: Seq<char>) -> int {
    last_index_of(path, '/') + 1
}

/// The file name of `path`: what follows its last separator.
pub open spec fn file_name(path: Seq<char>) -> Seq<char> {
    path.subrange(name_start(path), path.len() as int)
}

/// The index at which the extension of `path` starts, dot included, or the
/// length of `path` where its file name has no extension.
pub open spec fn stem_end(path: Seq<char>) -> int {
    let dot = last_index_of(path, '.');
    if dot > name_start(path) {
        dot
    } else {
        path.len() as int
    }
}

/// `path` with the extension of its file name replaced by `extension`, or
/// removed where `extension` is empty.
pub open spec fn with_extension_text(path: Seq<char>, extension: Seq<char>) -> Seq<char> {
    let stem = path.subrange(0, stem_end(path));
    if extension.len() == 0 {
        stem
    } else {
        stem + seq!['.'] + extension
    }
}

/// The path of the file that accompanies a metadata file: the last two
/// extensions of the metadata file's name give way to `extension`.
pub open spec fn companion_text(metadata_path: Seq<char>, extension: Seq<char>) -> Seq<char> {
    with_extension_text(with_extension_text(metadata_path, Seq::empty()), extension)
}

/// `last_index_of` names an occurrence of `c` after which `c` does not occur again.
pub proof fn lemma_last_index_of(s: Seq<char>, c: char)
    ensures
        -1 <= last_index_of(s, c) < s.len(),
        last_index_of(s, c) >= 0 ==> s[last_index_of(s, c)] == c,
        forall|i: int| last_index_of(s, c) < i < s.len() ==> s[i] != c,
    decreases s.len(),
{
    if s.len() > 0 && s.last() != c {
        lemma_last_index_of(s.drop_last(), c);
        assert forall|i: int| last_index_of(s, c) < i < s.len() implies s[i] != c by {
            if i < s.len() - 1 {
                assert(s.drop_last()[i] == s[i]);
            }
        }
    }
}

/// An index that holds `c` and after which `c` does not occur is the last index of `c`.
pub proof fn lemma_last_index_is(s: Seq<char>, c: char, at: int)
    requires
        -1 <= at < s.len(),
        at >= 0 ==> s[at] == c,
        forall|i: int| at < i < s.len() ==> s[i] != c,
    ensures
        last_index_of(s, c) == at,
{
    lemma_last_index_of(s, c);
}

/// Finds the last occurrence of `c` in `s`.
pub fn find_last(s: &Vec<char>, c: char) -> (found: Option<usize>)
    ensures
        match found {
            Some(i) => i == last_index_of(s@, c),
            None => last_index_of(s@, c) == -1,
        },
{
    let mut i: usize = s.len();
    while i > 0
        invariant
            i <= s.len(),
            forall|k: int| i <= k < s.len() ==> s@[k] != c,
        decreases i,
    {
        i -= 1;
        if s[i] == c {
            proof {
                lemma_last_index_is(s@, c, i as int);
            }
            return Some(i);
        }
    }
    proof {
        lemma_last_index_is(s@, c, -1);
    }
    None
}

/// Returns the index at which the file name of `path` starts.
pub fn name_start_of(path: &Vec<char>) -> (start: usize)
    ensures
        start == name_start(path@),
        start <= path@.len(),
{
    proof {
        lemma_last_index_of(path@, '/');
    }
    match find_last(path, '/') {
        Some(i) => {
            assert(i < path.len());
            i + 1
        },
        None => 0,
    }
}

/// Returns the index at which the extension of `path` starts, or its length.
pub fn stem_end_of(path: &Vec<char>) -> (end: usize)
    ensures
        end == stem_end(path@),
        end <= path@.len(),
{
    proof {
        lemma_last_index_of(path@, '.');
    }
    let start = name_start_of(path);
    match find_last(path, '.') {
        Some(dot) => if dot > start {
            dot
        } else {
            path.len()
        },
        None => path.len(),
    }
}

/// Returns the file name of `path`.
pub fn file_name_of(path: &str) -> (name: String)
    ensures
        name@ == file_name(path@),
{
    let chars = chars_of(path);
    let start = name_start_of(&chars);
    slice_text(path, start, chars.len())
}

/// Replaces the extension of the file name of `path` by `extension`; an empty
/// `extension` removes it.
pub fn with_extension(path: &str, extension: &str) -> (changed: String)
    ensures
        changed@ == with_extension_text(path@, extension@),
{
    let chars = chars_of(path);
    let end = stem_end_of(&chars);
    let mut changed = slice_text(path, 0, end);
    if extension.unicode_len() > 0 {
        proof {
            reveal_strlit(".");
        }
        changed.append(".");
        changed.append(extension);
        assert(changed@ =~= with_extension_text(path@, extension@));
    }
    changed
}

/// Derives the path of a companion file from the path of a metadata file.
pub fn companion_path(metadata_path: &str, extension: &str) -> (path: String)
    ensures
        path@ == companion_text(metadata_path@, extension@),
{
    let bare = with_extension(metadata_path, "");
    proof {
        reveal_strlit("");
        assert(""@ =~= Seq::<char>::empty());
    }
    with_extension(bare.as_str(), extension)
}

/// Appends a dot and `ext` to `path`. What `path` already has of extensions stays.
pub fn append_ext(ext: &str, path: &str) -> (longer: String)
    ensures
        longer@ == path@ + seq!['.'] + ext@,
{
    proof {
        reveal_strlit(".");
    }
    let mut longer = String::from_str(path);
    longer.append(".");
    longer.append(ext);
    assert(longer@ =~= path@ + seq!['.'] + ext@);
    longer
}

/// Appending text that holds no `c` leaves the last index of `c` where it was.
pub proof fn lemma_last_index_append(s: Seq<char>, tail: Seq<char>, c: char)
    requires
        forall|i: int| 0 <= i < tail.len() ==> tail[i] != c,
    ensures
        last_index_of(s + tail, c) == last_index_of(s, c),
{
    lemma_last_index_of(s, c);
    let whole = s + tail;
    let at = last_index_of(s, c);
    assert forall|i: int| at < i < whole.len() implies whole[i] != c by {
        if i >= s.len() {
            assert(whole[i] == tail[i - s.len()]);
        }
    }
    lemma_last_index_is(whole, c, at);
}

/// What stands before the compound extension of the metadata file `path`.
pub open spec fn metadata_stem(path: Seq<char>) -> Seq<char> {
    path.subrange(0, path.len() - metadata_suffix().len())
}

/// For a metadata file named `stem` followed by `.info.json`, where `stem`
/// does not end a directory, the companion file is `stem`, a dot and the new
/// extension.
proof fn lemma_companion_of_metadata(stem: Seq<char>, extension: Seq<char>)
    requires
        name_start(stem) < stem.len(),
        extension.len() > 0,
    ensures
        companion_text(stem + metadata_suffix(), extension) == stem + seq!['.'] + extension,
{
    reveal_strlit(".info.json");
    let info = seq!['.', 'i', 'n', 'f', 'o'];
    let json = seq!['.', 'j', 's', 'o', 'n'];
    let path = stem + metadata_suffix();
    assert(metadata_suffix() =~= info + json);
    assert(path =~= (stem + info) + json);
    let inner = stem + info;
    // The last dot of the whole path is the one before `json`.
    lemma_last_index_of(stem, '/');
    lemma_last_index_is(path, '.', (stem.len() + 5) as int);
    lemma_last_index_append(stem, info + json, '/');
    assert(path =~= stem + (info + json));
    assert(stem_end(path) == stem.len() + 5);
    assert(with_extension_text(path, Seq::empty()) =~= inner);
    // The last dot of what is left is the one before `info`.
    lemma_last_index_is(inner, '.', stem.len() as int);
    lemma_last_index_append(stem, info, '/');
    assert(stem_end(inner) == stem.len());
    assert(inner.subrange(0, stem.len() as int) =~= stem);
}

/// The companion of a metadata file replaces the compound extension and
/// nothing else: where the file name of `path` ends in `.info.json` and is
/// longer than that, the companion is what stands before the compound
/// extension, a dot and the new extension.
pub proof fn companion_replaces_the_compound_extension(path: Seq<char>, extension: Seq<char>)
    requires
        has_suffix(file_name(path), metadata_suffix()),
        file_name(path).len() > metadata_suffix().len(),
        extension.len() > 0,
    ensures
        has_suffix(path, metadata_suffix()),
        name_start(metadata_stem(path)) < metadata_stem(path).len(),
        companion_text(path, extension) == metadata_stem(path) + seq!['.'] + extension,
{
    reveal_strlit(".info.json");
    let suffix = metadata_suffix();
    let stem = metadata_stem(path);
    let name = file_name(path);
    lemma_last_index_of(path, '/');
    assert(path.subrange(path.len() - suffix.len(), path.len() as int) =~= name.subrange(
        name.len() - suffix.len(),
        name.len() as int,
    ));
    assert(path =~= stem + suffix);
    lemma_last_index_append(stem, suffix, '/');
    lemma_companion_of_metadata(stem, extension);
}

/// A file named `stem`, a dot and `extension` has its extension behind
/// `stem`, where `stem` does not end a directory and `extension` holds no
/// dot and no separator.
pub proof fn lemma_stem_end_of_dotted(stem: Seq<char>, extension: Seq<char>)
    requires
        name_start(stem) < stem.len(),
        forall|i: int|
            0 <= i < extension.len() ==> extension[i] != '.' && #[trigger] extension[i] != '/',
    ensures
        stem_end(stem + seq!['.'] + extension) == stem.len(),
{
    let path = stem + seq!['.'] + extension;
    let tail = seq!['.'] + extension;
    assert(path =~= stem + tail);
    lemma_last_index_of(stem, '/');
    lemma_last_index_append(stem, tail, '/');
    lemma_last_index_is(path, '.', stem.len() as int);
}

/// Tells whether `path` carries the compound extension of metadata files.
pub fn is_metadata_path(path: &Vec<char>) -> (yes: bool)
    ensures
        yes == has_suffix(path@, metadata_suffix()),
{
    let suffix = chars_of(".info.json");
    if path.len() < suffix.len() {
        return false;
    }
    crate::text::matches_at(path, path.len() - suffix.len(), &suffix)
}

} // verus!
