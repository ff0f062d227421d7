//! The item of a feed: one episode.

use vstd::prelude::*;
use crate::error::Error;
use crate::xml::{
    attribute, element_start, end_close, end_empty, end_open, lemma_grow, map_fault, text_element,
    text_into, written, FeedWriter,
};

verus! {

/// The `enclosure` element of an item: the media file to download.
#[derive(Debug, PartialEq, Eq)]
pub struct Enclosure {
    /// The address of the media file.
    pub file_url: String,
    /// The size of the media file in bytes, as a decimal numeral.
    pub file_length: String,
    /// The type of the media file.
    pub file_type: String,
}

/// What an `Enclosure` stands for.
pub struct EnclosureView {
    /// The address of the media file.
    pub file_url: Seq<char>,
    /// The size of the media file in bytes, as a decimal numeral.
    pub file_length: Seq<char>,
    /// The type of the media file.
    pub file_type: Seq<char>,
}

impl View for Enclosure {
    type V = EnclosureView;

    open spec fn view(&self) -> EnclosureView {
        EnclosureView {
            file_url: self.file_url@,
            file_length: self.file_length@,
            file_type: self.file_type@,
        }
    }
}

impl EnclosureView {
    /// The element as XML text: an empty `enclosure` element with the
    /// attributes `url`, `length` and `type`.
    pub open spec fn xml(self) -> Seq<char> {
        element_start("enclosure"@) + attribute("url"@, self.file_url) + attribute(
            "length"@,
            self.file_length,
        ) + attribute("type"@, self.file_type) + end_empty()
    }
}

impl Enclosure {
    /// Writes the element to `writer`.
    pub(crate) fn to_writer(&self, writer: &mut FeedWriter) -> (done: Result<(), Error>)
        ensures
            done is Ok,
            written(*final(writer)) == written(*old(writer)) + self@.xml(),
    {
        let ghost base = written(*writer);
        map_fault(writer.start("enclosure"))?;
        let ghost mut sofar = element_start("enclosure"@);
        map_fault(writer.attribute("url", self.file_url.as_str()))?;
        proof {
            lemma_grow(base, sofar, attribute("url"@, self.file_url@));
            sofar = sofar + attribute("url"@, self.file_url@);
        }
        map_fault(writer.attribute("length", self.file_length.as_str()))?;
        proof {
            lemma_grow(base, sofar, attribute("length"@, self.file_length@));
            sofar = sofar + attribute("length"@, self.file_length@);
        }
        map_fault(writer.attribute("type", self.file_type.as_str()))?;
        proof {
            lemma_grow(base, sofar, attribute("type"@, self.file_type@));
            sofar = sofar + attribute("type"@, self.file_type@);
        }
        map_fault(writer.end_empty())?;
        proof {
            lemma_grow(base, sofar, end_empty());
            sofar = sofar + end_empty();
        }
        Ok(())
    }

    /// Renders the element as XML text.
    pub fn to_string(&self) -> (text: Result<String, Error>)
        ensures
            text matches Ok(t) && t@ == self@.xml(),
    {
        let mut writer = FeedWriter::new();
        self.to_writer(&mut writer)?;
        assert(Seq::<char>::empty() + self@.xml() =~= self@.xml());
        crate::xml::finish(writer)
    }
}

/// The `itunes:image` element of an item: the episode's cover image.
#[derive(Debug, PartialEq, Eq)]
pub struct Image {
    /// The address of the image file.
    pub file_url: String,
}

/// What an `Image` of an item stands for.
pub struct ImageView {
    /// The address of the image file.
    pub file_url: Seq<char>,
}

impl View for Image {
    type V = ImageView;

    open spec fn view(&self) -> ImageView {
        ImageView { file_url: self.file_url@ }
    }
}

impl ImageView {
    /// The element as XML text: an empty `itunes:image` element with the
    /// attribute `href`.
    pub open spec fn xml(self) -> Seq<char> {
        element_start("itunes:image"@) + attribute("href"@, self.file_url) + end_empty()
    }
}

impl Image {
    /// Writes the element to `writer`.
    pub(crate) fn to_writer(&self, writer: &mut FeedWriter) -> (done: Result<(), Error>)
        ensures
            done is Ok,
            written(*final(writer)) == written(*old(writer)) + self@.xml(),
    {
        let ghost base = written(*writer);
        map_fault(writer.start("itunes:image"))?;
        let ghost mut sofar = element_start("itunes:image"@);
        map_fault(writer.attribute("href", self.file_url.as_str()))?;
        proof {
            lemma_grow(base, sofar, attribute("href"@, self.file_url@));
            sofar = sofar + attribute("href"@, self.file_url@);
        }
        map_fault(writer.end_empty())?;
        proof {
            lemma_grow(base, sofar, end_empty());
            sofar = sofar + end_empty();
        }
        Ok(())
    }

    /// Renders the element as XML text.
    pub fn to_string(&self) -> (text: Result<String, Error>)
        ensures
            text matches Ok(t) && t@ == self@.xml(),
    {
        let mut writer = FeedWriter::new();
        self.to_writer(&mut writer)?;
        assert(Seq::<char>::empty() + self@.xml() =~= self@.xml());
        crate::xml::finish(writer)
    }
}

/// An item of a feed: one episode of a podcast.
#[derive(Debug, PartialEq, Eq)]
pub struct Episode {
    /// The identifier of the episode.
    pub guid: String,
    /// The time stamp of the episode's publication.
    pub pub_date: String,
    /// The title of the episode; it goes into a CDATA section.
    pub title: String,
    /// The address of the episode's web page.
    pub link: String,
    /// The description of the episode; it goes into a CDATA section.
    pub description: String,
    /// The media file of the episode.
    pub enclosure: Enclosure,
    /// The author of the episode.
    pub author: String,
    /// The cover image of the episode.
    pub image: Image,
    /// The duration of the episode in seconds, as a decimal numeral.
    pub duration: String,
    /// The mark for explicit content.
    pub explicit_content: String,
}

/// What an `Episode` stands for.
pub struct EpisodeView {
    /// The identifier of the episode.
    pub guid: Seq<char>,
    /// The time stamp of the episode's publication.
    pub pub_date: Seq<char>,
    /// The title of the episode.
    pub title: Seq<char>,
    /// The address of the episode's web page.
    pub link: Seq<char>,
    /// The description of the episode.
    pub description: Seq<char>,
    /// The media file of the episode.
    pub enclosure: EnclosureView,
    /// The author of the episode.
    pub author: Seq<char>,
    /// The cover image of the episode.
    pub image: ImageView,
    /// The duration of the episode in seconds, as a decimal numeral.
    pub duration: Seq<char>,
    /// The mark for explicit content.
    pub explicit_content: Seq<char>,
}

impl View for Episode {
    type V = EpisodeView;

    open spec fn view(&self) -> EpisodeView {
        EpisodeView {
            guid: self.guid@,
            pub_date: self.pub_date@,
            title: self.title@,
            link: self.link@,
            description: self.description@,
            enclosure: self.enclosure@,
            author: self.author@,
            image: self.image@,
            duration: self.duration@,
            explicit_content: self.explicit_content@,
        }
    }
}

impl EpisodeView {
    /// What stands between the tags of the `item` element: the fields in the
    /// order in which the item declares them. Title and description stand in
    /// CDATA sections; the other texts are escaped.
    pub open spec fn content(self) -> Seq<char> {
        text_element("guid"@, self.guid, false) + text_element("pubDate"@, self.pub_date, false)
            + text_element("title"@, self.title, true) + text_element("link"@, self.link, false)
            + text_element("description"@, self.description, true) + self.enclosure.xml()
            + text_element("itunes:author"@, self.author, false) + self.image.xml() + text_element(
            "itunes:duration"@,
            self.duration,
            false,
        ) + text_element("itunes:explicit"@, self.explicit_content, false)
    }

    /// The item as XML text.
    pub open spec fn xml(self) -> Seq<char> {
        element_start("item"@) + end_open() + self.content() + end_close("item"@)
    }
}

impl Episode {
    /// Writes what stands between the tags of the item to `writer`.
    fn content_to_writer(&self, writer: &mut FeedWriter) -> (done: Result<(), Error>)
        ensures
            done is Ok,
            written(*final(writer)) == written(*old(writer)) + self@.content(),
    {
        let ghost base = written(*writer);
        text_into(writer, "guid", self.guid.as_str(), false)?;
        let ghost mut sofar = text_element("guid"@, self.guid@, false);
        text_into(writer, "pubDate", self.pub_date.as_str(), false)?;
        proof {
            lemma_grow(base, sofar, text_element("pubDate"@, self.pub_date@, false));
            sofar = sofar + text_element("pubDate"@, self.pub_date@, false);
        }
        text_into(writer, "title", self.title.as_str(), true)?;
        proof {
            lemma_grow(base, sofar, text_element("title"@, self.title@, true));
            sofar = sofar + text_element("title"@, self.title@, true);
        }
        text_into(writer, "link", self.link.as_str(), false)?;
        proof {
            lemma_grow(base, sofar, text_element("link"@, self.link@, false));
            sofar = sofar + text_element("link"@, self.link@, false);
        }
        text_into(writer, "description", self.description.as_str(), true)?;
        proof {
            lemma_grow(base, sofar, text_element("description"@, self.description@, true));
            sofar = sofar + text_element("description"@, self.description@, true);
        }
        self.enclosure.to_writer(writer)?;
        proof {
            lemma_grow(base, sofar, self.enclosure@.xml());
            sofar = sofar + self.enclosure@.xml();
        }
        text_into(writer, "itunes:author", self.author.as_str(), false)?;
        proof {
            lemma_grow(base, sofar, text_element("itunes:author"@, self.author@, false));
            sofar = sofar + text_element("itunes:author"@, self.author@, false);
        }
        self.image.to_writer(writer)?;
        proof {
            lemma_grow(base, sofar, self.image@.xml());
            sofar = sofar + self.image@.xml();
        }
        text_into(writer, "itunes:duration", self.duration.as_str(), false)?;
        proof {
            lemma_grow(base, sofar, text_element("itunes:duration"@, self.duration@, false));
            sofar = sofar + text_element("itunes:duration"@, self.duration@, false);
        }
        text_into(writer, "itunes:explicit", self.explicit_content.as_str(), false)?;
        proof {
            lemma_grow(
                base,
                sofar,
                text_element("itunes:explicit"@, self.explicit_content@, false),
            );
            sofar = sofar + text_element("itunes:explicit"@, self.explicit_content@, false);
        }
        Ok(())
    }

    /// Writes the item to `writer`.
    pub(crate) fn to_writer(&self, writer: &mut FeedWriter) -> (done: Result<(), Error>)
        ensures
            done is Ok,
            written(*final(writer)) == written(*old(writer)) + self@.xml(),
    {
        let ghost base = written(*writer);
        map_fault(writer.start("item"))?;
        let ghost mut sofar = element_start("item"@);
        map_fault(writer.end_open())?;
        proof {
            lemma_grow(base, sofar, end_open());
            sofar = sofar + end_open();
        }
        self.content_to_writer(writer)?;
        proof {
            lemma_grow(base, sofar, self@.content());
            sofar = sofar + self@.content();
        }
        map_fault(writer.end_close("item"))?;
        proof {
            lemma_grow(base, sofar, end_close("item"@));
            sofar = sofar + end_close("item"@);
        }
        Ok(())
    }

    /// Renders the item as XML text.
    pub fn to_string(&self) -> (text: Result<String, Error>)
        ensures
            text matches Ok(t) && t@ == self@.xml(),
    {
        let mut writer = FeedWriter::new();
        self.to_writer(&mut writer)?;
        assert(Seq::<char>::empty() + self@.xml() =~= self@.xml());
        crate::xml::finish(writer)
    }
}

} // verus!
