//! The `channel` element of a feed.

use vstd::prelude::*;
use crate::error::Error;
use crate::rss::episode::{Episode, EpisodeView};
use crate::xml::{
    attribute, element_start, end_close, end_empty, end_open, lemma_grow, map_fault, text_element,
    text_into, written, FeedWriter,
};

verus! {

/// The `itunes:image` element of a channel: the channel's cover image.
#[derive(Debug, PartialEq, Eq)]
pub struct Image {
    /// The address of the image file.
    pub image_url: String,
}

/// What an `Image` of a channel stands for.
pub struct ImageView {
    /// The address of the image file.
    pub image_url: Seq<char>,
}

impl View for Image {
    type V = ImageView;

    open spec fn view(&self) -> ImageView {
        ImageView { image_url: self.image_url@ }
    }
}

impl ImageView {
    /// The element as XML text: an empty `itunes:image` element with the
    /// attribute `href`.
    pub open spec fn xml(self) -> Seq<char> {
        element_start("itunes:image"@) + attribute("href"@, self.image_url) + end_empty()
    }
}

impl Image {
    /// Writes the element to `writer`.
    pub(crate) fn to_writer(&self, writer: &mut FeedWriter) -> (done: Result<(), Error>)
        ensures
            done is Ok,
            written(*final(writer)) == written(*old(writer)) + self@.xml(),
    {
        let ghost base = written(*writer);
        map_fault(writer.start("itunes:image"))?;
        let ghost mut sofar = element_start("itunes:image"@);
        map_fault(writer.attribute("href", self.image_url.as_str()))?;
        proof {
            lemma_grow(base, sofar, attribute("href"@, self.image_url@));
            sofar = sofar + attribute("href"@, self.image_url@);
        }
        map_fault(writer.end_empty())?;
        proof {
            lemma_grow(base, sofar, end_empty());
            sofar = sofar + end_empty();
        }
        Ok(())
    }

    /// Renders the element as XML text.
    pub fn to_string(&self) -> (text: Result<String, Error>)
        ensures
            text matches Ok(t) && t@ == self@.xml(),
    {
        let mut writer = FeedWriter::new();
        self.to_writer(&mut writer)?;
        assert(Seq::<char>::empty() + self@.xml() =~= self@.xml());
        crate::xml::finish(writer)
    }
}

/// The channel of a feed: what the podcast is, and its episodes in the order
/// in which the feed shows them.
#[derive(Debug, PartialEq, Eq)]
pub struct Channel {
    /// The title of the channel.
    pub title: String,
    /// The description of the channel; it goes into a CDATA section.
    pub description: String,
    /// The address of the channel's web page.
    pub link: String,
    /// The cover image of the channel.
    pub image: Image,
    /// The author of the channel.
    pub author: String,
    /// The language of the channel.
    pub language: String,
    /// The time stamp of the moment at which the feed was built.
    pub last_build_date: String,
    /// The time stamp of the channel's publication.
    pub pub_date: String,
    /// The category of the channel.
    pub category: String,
    /// The program that made the feed.
    pub generator: String,
    /// The mark for explicit content.
    pub explicit_content: String,
    /// The type of the channel: serial or episodic.
    pub channel_type: String,
    /// The episodes of the channel.
    pub episodes: Vec<Episode>,
}

/// What a `Channel` stands for.
pub struct ChannelView {
    /// The title of the channel.
    pub title: Seq<char>,
    /// The description of the channel.
    pub description: Seq<char>,
    /// The address of the channel's web page.
    pub link: Seq<char>,
    /// The cover image of the channel.
    pub image: ImageView,
    /// The author of the channel.
    pub author: Seq<char>,
    /// The language of the channel.
    pub language: Seq<char>,
    /// The time stamp of the moment at which the feed was built.
    pub last_build_date: Seq<char>,
    /// The time stamp of the channel's publication.
    pub pub_date: Seq<char>,
    /// The category of the channel.
    pub category: Seq<char>,
    /// The program that made the feed.
    pub generator: Seq<char>,
    /// The mark for explicit content.
    pub explicit_content: Seq<char>,
    /// The type of the channel.
    pub channel_type: Seq<char>,
    /// The episodes of the channel.
    pub episodes: Seq<EpisodeView>,
}

/// What each of `episodes` stands for, in the same order.
pub open spec fn episode_views(episodes: Seq<Episode>) -> Seq<EpisodeView> {
    episodes.map_values(|episode: Episode| episode@)
}

impl View for Channel {
    type V = ChannelView;

    open spec fn view(&self) -> ChannelView {
        ChannelView {
            title: self.title@,
            description: self.description@,
            link: self.link@,
            image: self.image@,
            author: self.author@,
            language: self.language@,
            last_build_date: self.last_build_date@,
            pub_date: self.pub_date@,
            category: self.category@,
            generator: self.generator@,
            explicit_content: self.explicit_content@,
            channel_type: self.channel_type@,
            episodes: episode_views(self.episodes@),
        }
    }
}

/// The items of `episodes` as XML text, one after the other in their order.
pub open spec fn items_xml(episodes: Seq<EpisodeView>) -> Seq<char>
    decreases episodes.len(),
{
    if episodes.len() == 0 {
        Seq::empty()
    } else {
        items_xml(episodes.drop_last()) + episodes.last().xml()
    }
}

impl ChannelView {
    /// What stands in the `channel` element before its items: the fields in
    /// the order in which the channel declares them. The description stands
    /// in a CDATA section; the other texts are escaped.
    pub open spec fn head(self) -> Seq<char> {
        text_element("title"@, self.title, false) + text_element(
            "description"@,
            self.description,
            true,
        ) + text_element("link"@, self.link, false) + self.image.xml() + text_element(
            "itunes:author"@,
            self.author,
            false,
        ) + text_element("language"@, self.language, false) + text_element(
            "lastBuildDate"@,
            self.last_build_date,
            false,
        ) + text_element("pubDate"@, self.pub_date, false) + text_element(
            "category"@,
            self.category,
            false,
        ) + text_element("generator"@, self.generator, false) + text_element(
            "itunes:explicit"@,
            self.explicit_content,
            false,
        ) + text_element("itunes:type"@, self.channel_type, false)
    }

    /// The channel as XML text: the head, then one item for each episode.
    pub open spec fn xml(self) -> Seq<char> {
        element_start("channel"@) + end_open() + self.head() + items_xml(self.episodes)
            + end_close("channel"@)
    }
}

impl Channel {
    /// Writes what stands in the channel before its items to `writer`.
    fn head_to_writer(&self, writer: &mut FeedWriter) -> (done: Result<(), Error>)
        ensures
            done is Ok,
            written(*final(writer)) == written(*old(writer)) + self@.head(),
    {
        let ghost base = written(*writer);
        text_into(writer, "title", self.title.as_str(), false)?;
        let ghost mut sofar = text_element("title"@, self.title@, false);
        text_into(writer, "description", self.description.as_str(), true)?;
        proof {
            lemma_grow(base, sofar, text_element("description"@, self.description@, true));
            sofar = sofar + text_element("description"@, self.description@, true);
        }
        text_into(writer, "link", self.link.as_str(), false)?;
        proof {
            lemma_grow(base, sofar, text_element("link"@, self.link@, false));
            sofar = sofar + text_element("link"@, self.link@, false);
        }
        self.image.to_writer(writer)?;
        proof {
            lemma_grow(base, sofar, self.image@.xml());
            sofar = sofar + self.image@.xml();
        }
        text_into(writer, "itunes:author", self.author.as_str(), false)?;
        proof {
            lemma_grow(base, sofar, text_element("itunes:author"@, self.author@, false));
            sofar = sofar + text_element("itunes:author"@, self.author@, false);
        }
        text_into(writer, "language", self.language.as_str(), false)?;
        proof {
            lemma_grow(base, sofar, text_element("language"@, self.language@, false));
            sofar = sofar + text_element("language"@, self.language@, false);
        }
        text_into(writer, "lastBuildDate", self.last_build_date.as_str(), false)?;
        proof {
            lemma_grow(base, sofar, text_element("lastBuildDate"@, self.last_build_date@, false));
            sofar = sofar + text_element("lastBuildDate"@, self.last_build_date@, false);
        }
        text_into(writer, "pubDate", self.pub_date.as_str(), false)?;
        proof {
            lemma_grow(base, sofar, text_element("pubDate"@, self.pub_date@, false));
            sofar = sofar + text_element("pubDate"@, self.pub_date@, false);
        }
        text_into(writer, "category", self.category.as_str(), false)?;
        proof {
            lemma_grow(base, sofar, text_element("category"@, self.category@, false));
            sofar = sofar + text_element("category"@, self.category@, false);
        }
        text_into(writer, "generator", self.generator.as_str(), false)?;
        proof {
            lemma_grow(base, sofar, text_element("generator"@, self.generator@, false));
            sofar = sofar + text_element("generator"@, self.generator@, false);
        }
        text_into(writer, "itunes:explicit", self.explicit_content.as_str(), false)?;
        proof {
            lemma_grow(
                base,
                sofar,
                text_element("itunes:explicit"@, self.explicit_content@, false),
            );
            sofar = sofar + text_element("itunes:explicit"@, self.explicit_content@, false);
        }
        text_into(writer, "itunes:type", self.channel_type.as_str(), false)?;
        proof {
            lemma_grow(base, sofar, text_element("itunes:type"@, self.channel_type@, false));
            sofar = sofar + text_element("itunes:type"@, self.channel_type@, false);
        }
        Ok(())
    }

    /// Writes the items of the channel to `writer`, in their order.
    fn items_to_writer(&self, writer: &mut FeedWriter) -> (done: Result<(), Error>)
        ensures
            done is Ok,
            written(*final(writer)) == written(*old(writer)) + items_xml(self@.episodes),
    {
        let ghost base = written(*writer);
        let ghost views = episode_views(self.episodes@);
        assert(views.take(0) =~= Seq::<EpisodeView>::empty());
        assert(base =~= base + items_xml(views.take(0)));
        let mut i: usize = 0;
        while i < self.episodes.len()
            invariant
                i <= self.episodes@.len(),
                views == episode_views(self.episodes@),
                written(*writer) == base + items_xml(views.take(i as int)),
            decreases self.episodes@.len() - i,
        {
            self.episodes[i].to_writer(writer)?;
            proof {
                let next = views.take(i + 1);
                assert(next.drop_last() =~= views.take(i as int));
                assert(next.last() == self.episodes@[i as int]@);
                lemma_grow(base, items_xml(views.take(i as int)), self.episodes@[i as int]@.xml());
            }
            i += 1;
        }
        assert(views.take(self.episodes@.len() as int) =~= views);
        Ok(())
    }

    /// Writes the channel to `writer`.
    pub(crate) fn to_writer(&self, writer: &mut FeedWriter) -> (done: Result<(), Error>)
        ensures
            done is Ok,
            written(*final(writer)) == written(*old(writer)) + self@.xml(),
    {
        let ghost base = written(*writer);
        map_fault(writer.start("channel"))?;
        let ghost mut sofar = element_start("channel"@);
        map_fault(writer.end_open())?;
        proof {
            lemma_grow(base, sofar, end_open());
            sofar = sofar + end_open();
        }
        self.head_to_writer(writer)?;
        proof {
            lemma_grow(base, sofar, self@.head());
            sofar = sofar + self@.head();
        }
        self.items_to_writer(writer)?;
        proof {
            lemma_grow(base, sofar, items_xml(self@.episodes));
            sofar = sofar + items_xml(self@.episodes);
        }
        map_fault(writer.end_close("channel"))?;
        proof {
            lemma_grow(base, sofar, end_close("channel"@));
            sofar = sofar + end_close("channel"@);
        }
        Ok(())
    }

    /// Renders the channel as XML text.
    pub fn to_string(&self) -> (text: Result<String, Error>)
        ensures
            text matches Ok(t) && t@ == self@.xml(),
    {
        let mut writer = FeedWriter::new();
        self.to_writer(&mut writer)?;
        assert(Seq::<char>::empty() + self@.xml() =~= self@.xml());
        crate::xml::finish(writer)
    }
}

} // verus!
