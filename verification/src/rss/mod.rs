//! The feed as a document: the `rss` element and what it holds.

use vstd::prelude::*;
use crate::error::Error;
use crate::rss::channel::{Channel, ChannelView};
use crate::xml::{
    attribute, element_start, end_close, end_open, lemma_grow, map_fault, written, FeedWriter,
};

pub mod channel;
pub mod episode;

verus! {

/// A feed of a podcast: the root element of the document.
#[derive(Debug, PartialEq, Eq)]
pub struct Rss {
    /// The version of the feed format.
    pub version: String,
    /// The namespace of the iTunes extensions.
    pub namespace: String,
    /// The namespace of the content module.
    pub content_namespace: String,
    /// The channel that the feed describes.
    pub channel: Channel,
}

/// What an `Rss` stands for.
pub struct RssView {
    /// The version of the feed format.
    pub version: Seq<char>,
    /// The namespace of the iTunes extensions.
    pub namespace: Seq<char>,
    /// The namespace of the content module.
    pub content_namespace: Seq<char>,
    /// The channel that the feed describes.
    pub channel: ChannelView,
}

impl View for Rss {
    type V = RssView;

    open spec fn view(&self) -> RssView {
        RssView {
            version: self.version@,
            namespace: self.namespace@,
            content_namespace: self.content_namespace@,
            channel: self.channel@,
        }
    }
}

impl RssView {
    /// The feed as XML text: the `rss` element with the version and the two
    /// namespaces as attributes, and the channel inside.
    pub open spec fn xml(self) -> Seq<char> {
        element_start("rss"@) + attribute("version"@, self.version) + attribute(
            "xmlns:itunes"@,
            self.namespace,
        ) + attribute("xmlns:content"@, self.content_namespace) + end_open() + self.channel.xml()
            + end_close("rss"@)
    }
}

impl Rss {
    /// Writes the feed to `writer`.
    pub(crate) fn to_writer(&self, writer: &mut FeedWriter) -> (done: Result<(), Error>)
        ensures
            done is Ok,
            written(*final(writer)) == written(*old(writer)) + self@.xml(),
    {
        let ghost base = written(*writer);
        map_fault(writer.start("rss"))?;
        let ghost mut sofar = element_start("rss"@);
        map_fault(writer.attribute("version", self.version.as_str()))?;
        proof {
            lemma_grow(base, sofar, attribute("version"@, self.version@));
            sofar = sofar + attribute("version"@, self.version@);
        }
        map_fault(writer.attribute("xmlns:itunes", self.namespace.as_str()))?;
        proof {
            lemma_grow(base, sofar, attribute("xmlns:itunes"@, self.namespace@));
            sofar = sofar + attribute("xmlns:itunes"@, self.namespace@);
        }
        map_fault(writer.attribute("xmlns:content", self.content_namespace.as_str()))?;
        proof {
            lemma_grow(base, sofar, attribute("xmlns:content"@, self.content_namespace@));
            sofar = sofar + attribute("xmlns:content"@, self.content_namespace@);
        }
        map_fault(writer.end_open())?;
        proof {
            lemma_grow(base, sofar, end_open());
            sofar = sofar + end_open();
        }
        self.channel.to_writer(writer)?;
        proof {
            lemma_grow(base, sofar, self.channel@.xml());
            sofar = sofar + self.channel@.xml();
        }
        map_fault(writer.end_close("rss"))?;
        proof {
            lemma_grow(base, sofar, end_close("rss"@));
            sofar = sofar + end_close("rss"@);
        }
        Ok(())
    }

    /// Renders the feed as XML text, without a prolog.
    pub fn to_string(&self) -> (text: Result<String, Error>)
        ensures
            text matches Ok(t) && t@ == self@.xml(),
    {
        let mut writer = FeedWriter::new();
        self.to_writer(&mut writer)?;
        assert(Seq::<char>::empty() + self@.xml() =~= self@.xml());
        crate::xml::finish(writer)
    }
}

} // verus!
