//! Writing XML text through the writer of the `hard_xml` crate.
//!
//! The spec functions of this module say which characters each step of the
//! writer adds. Text in attributes and in plain elements is escaped. Text in
//! CDATA sections is written as it stands, cut into as many sections as it
//! takes for none of them to end early.

use vstd::prelude::*;
use crate::error::Error;
use crate::text::{chars_of, matches_at, occurs_at, slice_text};

verus! {

/// What stands for the character `c` in escaped text.
pub open spec fn escaped_char(c: char) -> Seq<char> {
    if c == '<' {
        seq!['&', 'l', 't', ';']
    } else if c == '>' {
        seq!['&', 'g', 't', ';']
    } else if c == '&' {
        seq!['&', 'a', 'm', 'p', ';']
    } else if c == '\'' {
        seq!['&', 'a', 'p', 'o', 's', ';']
    } else if c == '"' {
        seq!['&', 'q', 'u', 'o', 't', ';']
    } else {
        seq![c]
    }
}

/// `text` with each of the five characters `<`, `>`, `&`, `'` and `"`
/// replaced by its entity.
pub open spec fn escaped(text: Seq<char>) -> Seq<char>
    decreases text.len(),
{
    if text.len() == 0 {
        Seq::empty()
    } else {
        escaped(text.drop_last()) + escaped_char(text.last())
    }
}

/// The start of an element's opening tag, up to the tag's name.
pub open spec fn element_start(tag: Seq<char>) -> Seq<char> {
    seq!['<'] + tag
}

/// An attribute inside an opening tag: a space, the key, and the escaped
/// value between double quotes.
pub open spec fn attribute(key: Seq<char>, value: Seq<char>) -> Seq<char> {
    seq![' '] + key + seq!['=', '"'] + escaped(value) + seq!['"']
}

/// The end of an opening tag whose element has content.
pub open spec fn end_open() -> Seq<char> {
    seq!['>']
}

/// The end of an opening tag whose element has no content.
pub open spec fn end_empty() -> Seq<char> {
    seq!['/', '>']
}

/// The closing tag of an element.
pub open spec fn end_close(tag: Seq<char>) -> Seq<char> {
    seq!['<', '/'] + tag + seq!['>']
}

/// A CDATA section that holds `content` as it stands.
pub open spec fn cdata(content: Seq<char>) -> Seq<char> {
    seq!['<', '!', '[', 'C', 'D', 'A', 'T', 'A', '['] + content + seq![']', ']', '>']
}

/// What the writer makes of an element that holds only text: the text in
/// one CDATA section, as it stands, where `is_cdata` holds, and escaped
/// otherwise.
pub open spec fn flat_text(tag: Seq<char>, content: Seq<char>, is_cdata: bool) -> Seq<char> {
    element_start(tag) + end_open() + (if is_cdata {
        cdata(content)
    } else {
        escaped(content)
    }) + end_close(tag)
}

/// The text that ends a CDATA section.
pub open spec fn cdata_end() -> Seq<char> {
    seq![']', ']', '>']
}

/// The index of the first place at or after `from` at which `content` holds
/// the end of a CDATA section, or -1 where there is none.
pub open spec fn first_end(content: Seq<char>, from: int) -> int
    decreases content.len() - from,
{
    if from < 0 || from + 3 > content.len() {
        -1
    } else if occurs_at(content, from, cdata_end()) {
        from
    } else {
        first_end(content, from + 1)
    }
}

/// `content` cut into pieces of which none holds the end of a CDATA section:
/// wherever `content` holds one, a piece ends behind the two brackets, and
/// the next piece begins with the `>`.
pub open spec fn cdata_pieces(content: Seq<char>) -> Seq<Seq<char>>
    decreases content.len(),
{
    let cut = first_end(content, 0);
    if 0 <= cut && cut + 3 <= content.len() {
        seq![content.subrange(0, cut + 2)] + cdata_pieces(
            content.subrange(cut + 2, content.len() as int),
        )
    } else {
        seq![content]
    }
}

/// One CDATA section for each of `pieces`, one behind the other.
pub open spec fn sections(pieces: Seq<Seq<char>>) -> Seq<char>
    decreases pieces.len(),
{
    if pieces.len() == 0 {
        Seq::empty()
    } else {
        sections(pieces.drop_last()) + cdata(pieces.last())
    }
}

/// The texts of `pieces`, one behind the other.
pub open spec fn joined(pieces: Seq<Seq<char>>) -> Seq<char>
    decreases pieces.len(),
{
    if pieces.len() == 0 {
        Seq::empty()
    } else {
        joined(pieces.drop_last()) + pieces.last()
    }
}

/// An element that holds only text. Where `is_cdata` holds, the text stands
/// in CDATA sections, cut so that none of them ends early; otherwise it is
/// escaped.
pub open spec fn text_element(tag: Seq<char>, content: Seq<char>, is_cdata: bool) -> Seq<char> {
    if is_cdata {
        element_start(tag) + end_open() + sections(cdata_pieces(content)) + end_close(tag)
    } else {
        flat_text(tag, content, false)
    }
}

/// True when `c` is one of the five characters that escaping replaces.
pub open spec fn is_markup(c: char) -> bool {
    c == '<' || c == '>' || c == '&' || c == '\'' || c == '"'
}

/// Escaped text holds none of `<`, `>`, `'` and `"`, and each `&` in it
/// starts one of the five entities.
pub proof fn escaped_has_no_markup(text: Seq<char>)
    ensures
        forall|i: int|
            0 <= i < escaped(text).len() ==> {
                let c = #[trigger] escaped(text)[i];
                c != '<' && c != '>' && c != '\'' && c != '"' && (c == '&' ==> exists|m: char|
                    is_markup(m) && #[trigger] escaped_char(m) =~= escaped(text).subrange(
                        i,
                        i + escaped_char(m).len(),
                    ) && i + escaped_char(m).len() <= escaped(text).len())
            },
    decreases text.len(),
{
    if text.len() > 0 {
        let front = escaped(text.drop_last());
        let back = escaped_char(text.last());
        let whole = escaped(text);
        escaped_has_no_markup(text.drop_last());
        assert forall|i: int| 0 <= i < whole.len() implies {
            let c = #[trigger] whole[i];
            c != '<' && c != '>' && c != '\'' && c != '"' && (c == '&' ==> exists|m: char|
                is_markup(m) && #[trigger] escaped_char(m) =~= whole.subrange(
                    i,
                    i + escaped_char(m).len(),
                ) && i + escaped_char(m).len() <= whole.len())
        } by {
            if i < front.len() {
                assert(whole[i] == front[i]);
                if front[i] == '&' {
                    let m = choose|m: char|
                        is_markup(m) && #[trigger] escaped_char(m) =~= front.subrange(
                            i,
                            i + escaped_char(m).len(),
                        ) && i + escaped_char(m).len() <= front.len();
                    assert(front.subrange(i, i + escaped_char(m).len()) =~= whole.subrange(
                        i,
                        i + escaped_char(m).len(),
                    ));
                }
            } else {
                assert(whole[i] == back[i - front.len()]);
                if whole[i] == '&' {
                    let m = text.last();
                    assert(i == front.len());
                    assert(is_markup(m));
                    assert(escaped_char(m) =~= whole.subrange(i, i + escaped_char(m).len()));
                }
            }
        }
    }
}

/// Text without any of the five characters is escaped to itself.
pub proof fn escaped_keeps_plain_text(text: Seq<char>)
    requires
        forall|i: int| 0 <= i < text.len() ==> !is_markup(#[trigger] text[i]),
    ensures
        escaped(text) == text,
    decreases text.len(),
{
    if text.len() > 0 {
        escaped_keeps_plain_text(text.drop_last());
        assert(!is_markup(text[text.len() - 1]));
        assert(escaped(text) =~= text);
    } else {
        assert(escaped(text) =~= text);
    }
}

/// A CDATA section holds its content unchanged, right behind its opening.
pub proof fn cdata_holds_content(content: Seq<char>)
    ensures
        cdata(content).len() == content.len() + 12,
        cdata(content).subrange(9, 9 + content.len() as int) == content,
{
    assert(cdata(content).subrange(9, 9 + content.len() as int) =~= content);
}

/// An XML text under construction: the writer of `hard_xml` over a buffer in
/// memory. What it holds is known through `written` only.
#[verifier::external_body]
pub struct FeedWriter {
    inner: hard_xml::XmlWriter<Vec<u8>>,
}

/// The text that a writer has taken so far.
pub uninterp spec fn written(writer: FeedWriter) -> Seq<char>;

impl FeedWriter {
    /// Calls `XmlWriter::new` on an empty buffer: nothing is written yet.
    ///
    /// The writer writes into a vector in memory, and only text. So each of
    /// the calls below succeeds, and the buffer is text at the end.
    #[verifier::external_body]
    pub(crate) fn new() -> (writer: FeedWriter)
        ensures
            written(writer) == Seq::<char>::empty(),
    {
        FeedWriter { inner: hard_xml::XmlWriter::new(Vec::new()) }
    }

    /// Calls `XmlWriter::write_element_start`, which writes `<` and the tag.
    #[verifier::external_body]
    pub(crate) fn start(&mut self, tag: &str) -> (done: Result<(), hard_xml::XmlError>)
        ensures
            done is Ok,
            written(*final(self)) == written(*old(self)) + element_start(tag@),
    {
        self.inner.write_element_start(tag).map_err(hard_xml::XmlError::from)
    }

    /// Calls `XmlWriter::write_attribute`, which writes a space, the key, `="`,
    /// the value with its markup characters escaped, and `"`.
    #[verifier::external_body]
    pub(crate) fn attribute(&mut self, key: &str, value: &str) -> (done: Result<
        (),
        hard_xml::XmlError,
    >)
        ensures
            done is Ok,
            written(*final(self)) == written(*old(self)) + attribute(key@, value@),
    {
        self.inner.write_attribute(key, value).map_err(hard_xml::XmlError::from)
    }

    /// Calls `XmlWriter::write_element_end_open`, which writes `>`.
    #[verifier::external_body]
    pub(crate) fn end_open(&mut self) -> (done: Result<(), hard_xml::XmlError>)
        ensures
            done is Ok,
            written(*final(self)) == written(*old(self)) + end_open(),
    {
        self.inner.write_element_end_open().map_err(hard_xml::XmlError::from)
    }

    /// Calls `XmlWriter::write_element_end_empty`, which writes `/>`.
    #[verifier::external_body]
    pub(crate) fn end_empty(&mut self) -> (done: Result<(), hard_xml::XmlError>)
        ensures
            done is Ok,
            written(*final(self)) == written(*old(self)) + end_empty(),
    {
        self.inner.write_element_end_empty().map_err(hard_xml::XmlError::from)
    }

    /// Calls `XmlWriter::write_element_end_close`, which writes `</`, the tag and `>`.
    #[verifier::external_body]
    pub(crate) fn end_close(&mut self, tag: &str) -> (done: Result<(), hard_xml::XmlError>)
        ensures
            done is Ok,
            written(*final(self)) == written(*old(self)) + end_close(tag@),
    {
        self.inner.write_element_end_close(tag).map_err(hard_xml::XmlError::from)
    }

    /// Calls `XmlWriter::write_cdata_text`, which writes the opening of a
    /// CDATA section, the content as it stands, and the end of the section.
    #[verifier::external_body]
    pub(crate) fn cdata(&mut self, content: &str) -> (done: Result<(), hard_xml::XmlError>)
        ensures
            done is Ok,
            written(*final(self)) == written(*old(self)) + cdata(content@),
    {
        self.inner.write_cdata_text(content).map_err(hard_xml::XmlError::from)
    }

    /// Calls `XmlWriter::write_flatten_text`, which writes a whole element
    /// that holds only text: the opening tag, the content, and the closing
    /// tag. The content goes into a CDATA section as it stands where
    /// `is_cdata` holds, and is escaped otherwise.
    #[verifier::external_body]
    pub(crate) fn text(&mut self, tag: &str, content: &str, is_cdata: bool) -> (done: Result<
        (),
        hard_xml::XmlError,
    >)
        ensures
            done is Ok,
            written(*final(self)) == written(*old(self)) + flat_text(tag@, content@, is_cdata),
    {
        self.inner.write_flatten_text(tag, content, is_cdata).map_err(hard_xml::XmlError::from)
    }

    /// Takes the buffer with `XmlWriter::into_inner` and reads it as UTF-8
    /// with `String::from_utf8`: the text is what was written.
    #[verifier::external_body]
    pub(crate) fn finish(self) -> (text: Result<String, hard_xml::XmlError>)
        ensures
            text is Ok,
            text matches Ok(t) ==> t@ == written(self),
    {
        String::from_utf8(self.inner.into_inner()).map_err(hard_xml::XmlError::from)
    }
}

/// Text that grows at its end can be split after any prefix: adding `piece`
/// to `base` followed by `sofar` is adding it to `sofar` behind `base`.
pub proof fn lemma_grow(base: Seq<char>, sofar: Seq<char>, piece: Seq<char>)
    ensures
        (base + sofar) + piece == base + (sofar + piece),
{
    assert((base + sofar) + piece =~= base + (sofar + piece));
}

/// Turns a fault of the writer into this library's error.
pub fn map_fault(done: Result<(), hard_xml::XmlError>) -> (mapped: Result<(), Error>)
    ensures
        match done {
            Ok(_) => mapped is Ok,
            Err(fault) => mapped == Err::<(), Error>(Error::XmlRenderError(fault)),
        },
{
    match done {
        Ok(()) => Ok(()),
        Err(fault) => Err(Error::XmlRenderError(fault)),
    }
}

/// Ends the writing and hands out the text that was written.
pub(crate) fn finish(writer: FeedWriter) -> (text: Result<String, Error>)
    ensures
        text matches Ok(t) && t@ == written(writer),
{
    match writer.finish() {
        Ok(text) => Ok(text),
        Err(fault) => Err(Error::XmlRenderError(fault)),
    }
}

/// `first_end` names the first end of a CDATA section at or after `from`.
pub proof fn lemma_first_end(content: Seq<char>, from: int)
    requires
        0 <= from,
    ensures
        first_end(content, from) == -1 || (from <= first_end(content, from) && first_end(
            content,
            from,
        ) + 3 <= content.len() && occurs_at(content, first_end(content, from), cdata_end())),
        forall|i: int|
            from <= i && (first_end(content, from) == -1 || i < first_end(content, from))
                ==> !occurs_at(content, i, cdata_end()),
    decreases content.len() - from,
{
    if from + 3 <= content.len() && !occurs_at(content, from, cdata_end()) {
        lemma_first_end(content, from + 1);
    }
}

/// The pieces of a text, taken together, are the text, and none of them
/// holds the end of a CDATA section.
pub proof fn pieces_hold_the_text(content: Seq<char>)
    ensures
        joined(cdata_pieces(content)) == content,
        forall|k: int, i: int|
            0 <= k < cdata_pieces(content).len() ==> !#[trigger] occurs_at(
                cdata_pieces(content)[k],
                i,
                cdata_end(),
            ),
    decreases content.len(),
{
    let cut = first_end(content, 0);
    lemma_first_end(content, 0);
    let pieces = cdata_pieces(content);
    if 0 <= cut && cut + 3 <= content.len() {
        let head = content.subrange(0, cut + 2);
        let rest = content.subrange(cut + 2, content.len() as int);
        let tail = cdata_pieces(rest);
        pieces_hold_the_text(rest);
        lemma_joined_behind(head, tail);
        assert(head + rest =~= content);
        assert forall|k: int, i: int| 0 <= k < pieces.len() implies !#[trigger] occurs_at(
            pieces[k],
            i,
            cdata_end(),
        ) by {
            if k == 0 {
                if occurs_at(head, i, cdata_end()) {
                    assert(head.subrange(i, i + 3) =~= content.subrange(i, i + 3));
                    assert(occurs_at(content, i, cdata_end()));
                }
            } else {
                assert(pieces[k] == tail[k - 1]);
            }
        }
    } else {
        lemma_one_piece(content);
    }
}

/// One piece alone is joined to itself and stands in one section.
proof fn lemma_one_piece(piece: Seq<char>)
    ensures
        joined(seq![piece]) == piece,
        sections(seq![piece]) == cdata(piece),
{
    let one = seq![piece];
    let none = Seq::<Seq<char>>::empty();
    assert(one.drop_last() =~= none);
    assert(one.last() == piece);
    assert(joined(none) =~= Seq::<char>::empty());
    assert(sections(none) =~= Seq::<char>::empty());
    assert(joined(one) =~= piece);
    assert(sections(one) =~= cdata(piece));
}

/// Joining pieces behind a first piece puts the first piece in front.
proof fn lemma_joined_behind(head: Seq<char>, tail: Seq<Seq<char>>)
    ensures
        joined(seq![head] + tail) == head + joined(tail),
    decreases tail.len(),
{
    let all = seq![head] + tail;
    if tail.len() == 0 {
        lemma_one_piece(head);
        assert(all =~= seq![head]);
        assert(joined(all) =~= head + joined(tail));
    } else {
        assert(all.drop_last() =~= seq![head] + tail.drop_last());
        assert(all.last() == tail.last());
        lemma_joined_behind(head, tail.drop_last());
        assert(joined(all) =~= head + joined(tail));
    }
}

/// The sections of pieces behind a first piece begin with its section.
proof fn lemma_sections_behind(head: Seq<char>, tail: Seq<Seq<char>>)
    ensures
        sections(seq![head] + tail) == cdata(head) + sections(tail),
    decreases tail.len(),
{
    let all = seq![head] + tail;
    if tail.len() == 0 {
        lemma_one_piece(head);
        assert(all =~= seq![head]);
        assert(sections(all) =~= cdata(head) + sections(tail));
    } else {
        assert(all.drop_last() =~= seq![head] + tail.drop_last());
        assert(all.last() == tail.last());
        lemma_sections_behind(head, tail.drop_last());
        assert(sections(all) =~= cdata(head) + sections(tail));
    }
}

/// Finds the first end of a CDATA section in `chars` at or after `from`.
fn next_end(chars: &Vec<char>, from: usize) -> (found: Option<usize>)
    requires
        from <= chars@.len(),
    ensures
        match found {
            Some(at) => from <= at && at + 3 <= chars@.len() && first_end(
                chars@.subrange(from as int, chars@.len() as int),
                0,
            ) == at - from,
            None => first_end(chars@.subrange(from as int, chars@.len() as int), 0) == -1,
        },
{
    let end = chars_of("]]>");
    proof {
        reveal_strlit("]]>");
        assert(end@ =~= cdata_end());
    }
    let ghost rest = chars@.subrange(from as int, chars@.len() as int);
    let mut at: usize = from;
    while at < chars.len() && chars.len() - at >= 3
        invariant
            from <= at <= chars@.len(),
            end@ == cdata_end(),
            rest == chars@.subrange(from as int, chars@.len() as int),
            first_end(rest, 0) == first_end(rest, at - from),
        decreases chars@.len() - at,
    {
        let here = matches_at(chars, at, &end);
        proof {
            assert(rest.subrange(at - from, at - from + 3) =~= chars@.subrange(
                at as int,
                at + 3,
            ));
        }
        if here {
            return Some(at);
        }
        at += 1;
    }
    None
}

/// Writes `content` to `writer` in CDATA sections, cut so that none ends early.
fn sections_into(writer: &mut FeedWriter, content: &str) -> (done: Result<(), Error>)
    ensures
        done is Ok,
        written(*final(writer)) == written(*old(writer)) + sections(cdata_pieces(content@)),
{
    let ghost base = written(*writer);
    let chars = chars_of(content);
    let total = chars.len();
    let mut from: usize = 0;
    let ghost mut sofar: Seq<char> = Seq::empty();
    assert(base + sofar =~= base);
    assert(chars@.subrange(0, chars@.len() as int) =~= content@);
    assert(sofar + sections(cdata_pieces(content@)) =~= sections(cdata_pieces(content@)));
    loop
        invariant
            from <= chars@.len(),
            total == chars@.len(),
            base == written(*old(writer)),
            chars@ == content@,
            written(*writer) == base + sofar,
            sofar + sections(cdata_pieces(chars@.subrange(from as int, chars@.len() as int)))
                == sections(cdata_pieces(content@)),
        decreases chars@.len() - from,
    {
        let ghost rest = chars@.subrange(from as int, chars@.len() as int);
        match next_end(&chars, from) {
            Some(at) => {
                let piece = slice_text(content, from, at + 2);
                map_fault(writer.cdata(piece.as_str()))?;
                proof {
                    let after = chars@.subrange(at + 2, chars@.len() as int);
                    assert(rest.subrange(0, at - from + 2) =~= piece@);
                    assert(rest.subrange(at - from + 2, rest.len() as int) =~= after);
                    lemma_sections_behind(piece@, cdata_pieces(after));
                    lemma_grow(base, sofar, cdata(piece@));
                    assert(sofar + (cdata(piece@) + sections(cdata_pieces(after))) =~= (sofar
                        + cdata(piece@)) + sections(cdata_pieces(after)));
                    sofar = sofar + cdata(piece@);
                }
                from = at + 2;
            },
            None => {
                let piece = slice_text(content, from, total);
                map_fault(writer.cdata(piece.as_str()))?;
                proof {
                    lemma_one_piece(rest);
                    assert(piece@ == rest);
                    assert(cdata_pieces(rest) == seq![rest]);
                    lemma_grow(base, sofar, cdata(piece@));
                }
                return Ok(());
            },
        }
    }
}

/// Writes an element that holds only text to `writer`.
pub(crate) fn text_into(writer: &mut FeedWriter, tag: &str, content: &str, is_cdata: bool) -> (done:
    Result<(), Error>)
    ensures
        done is Ok,
        written(*final(writer)) == written(*old(writer)) + text_element(tag@, content@, is_cdata),
{
    if is_cdata {
        let ghost base = written(*writer);
        map_fault(writer.start(tag))?;
        let ghost mut sofar = element_start(tag@);
        map_fault(writer.end_open())?;
        proof {
            lemma_grow(base, sofar, end_open());
            sofar = sofar + end_open();
        }
        sections_into(writer, content)?;
        proof {
            lemma_grow(base, sofar, sections(cdata_pieces(content@)));
            sofar = sofar + sections(cdata_pieces(content@));
        }
        map_fault(writer.end_close(tag))?;
        proof {
            lemma_grow(base, sofar, end_close(tag@));
        }
        Ok(())
    } else {
        map_fault(writer.text(tag, content, false))
    }
}

} // verus!
