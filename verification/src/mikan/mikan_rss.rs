use crate::nesting::{is_shallow_markup, markup_is_shallow};
use crate::text::{
    after_last, chars_of, find_from, index_of, last_index_of, remove_all, removed, string_of,
};
use vstd::prelude::*;

verus! {

#[verifier::external_type_specification]
#[verifier::external_body]
pub struct ExRssError(rss::Error);

/// A series feed: its head and its entries, newest first.
#[derive(Debug)]
pub struct RssBangumi {
    pub title: String,
    pub link: String,
    pub description: String,
    pub items: Vec<RssEpisode>,
}

/// One entry of a series feed.
#[derive(Debug)]
pub struct RssEpisode {
    pub title: String,
    pub link: String,
    pub description: String,
    pub torrent_url: String,
    pub torrent_hash: String,
}

/// The mathematical content of an `RssEpisode`.
pub struct Episode {
    pub title: Seq<char>,
    pub link: Seq<char>,
    pub description: Seq<char>,
    pub torrent_url: Seq<char>,
    pub torrent_hash: Seq<char>,
}

impl DeepView for RssEpisode {
    type V = Episode;

    open spec fn deep_view(&self) -> Episode {
        Episode {
            title: self.title@,
            link: self.link@,
            description: self.description@,
            torrent_url: self.torrent_url@,
            torrent_hash: self.torrent_hash@,
        }
    }
}

/// The mathematical content of an `RssBangumi`.
pub struct SeriesFeed {
    pub title: Seq<char>,
    pub link: Seq<char>,
    pub description: Seq<char>,
    pub items: Seq<Episode>,
}

impl View for RssBangumi {
    type V = SeriesFeed;

    open spec fn view(&self) -> SeriesFeed {
        SeriesFeed {
            title: self.title@,
            link: self.link@,
            description: self.description@,
            items: self.items.deep_view(),
        }
    }
}

/// An entry of a channel as the channel gives it: any part may be missing.
#[derive(Debug, Clone)]
pub struct RawItem {
    pub title: Option<String>,
    pub link: Option<String>,
    pub description: Option<String>,
    pub enclosure_url: Option<String>,
}

/// A channel as it is read: its head and its entries.
#[derive(Debug, Clone)]
pub struct RawChannel {
    pub title: String,
    pub link: String,
    pub description: String,
    pub items: Vec<RawItem>,
}

/// The mathematical content of a `RawItem`.
pub struct RawEntry {
    pub title: Option<Seq<char>>,
    pub link: Option<Seq<char>>,
    pub description: Option<Seq<char>>,
    pub enclosure_url: Option<Seq<char>>,
}

impl DeepView for RawItem {
    type V = RawEntry;

    open spec fn deep_view(&self) -> RawEntry {
        RawEntry {
            title: self.title.deep_view(),
            link: self.link.deep_view(),
            description: self.description.deep_view(),
            enclosure_url: self.enclosure_url.deep_view(),
        }
    }
}

/// The mathematical content of a `RawChannel`.
pub struct RawFeed {
    pub title: Seq<char>,
    pub link: Seq<char>,
    pub description: Seq<char>,
    pub items: Seq<RawEntry>,
}

impl View for RawChannel {
    type V = RawFeed;

    open spec fn view(&self) -> RawFeed {
        RawFeed {
            title: self.title@,
            link: self.link@,
            description: self.description@,
            items: self.items.deep_view(),
        }
    }
}

/// Why a feed could not be used.
#[derive(Debug, Clone, Copy, PartialEq, Eq, Structural)]
pub enum FeedError {
    /// The document is no channel that can be read, or is nested too deep
    /// to be handed to the reader.
    Unreadable,
}

/// The channel that a document holds, as the channel reader built into
/// this library gives it; `None` where the reader does not take the
/// document.
pub uninterp spec fn channel_in(body: Seq<u8>) -> Option<RawFeed>;

/// `rss::Channel::read_from` on a document held in memory, the channel
/// handed out field by field: title, link and description of the channel,
/// and of each item its title, link, description and the address of its
/// enclosure. Whether and how a document reads depends on its bytes alone.
/// The reader descends by recursion into the elements of extensions, one
/// level for each element that is open. The scan behind
/// `markup_is_shallow` cuts a document into text, comments, literal
/// sections, instructions and tags as the reader's tokenizer does, counts
/// the elements that are open, and turns down any document in which that
/// count passes `MAX_NESTING`, so that the descent is bounded on every
/// document let in here.
#[verifier::external_body]
pub(crate) fn read_channel(body: &[u8]) -> (r: Result<RawChannel, rss::Error>)
    requires
        markup_is_shallow(body@),
    ensures
        match r {
            Ok(channel) => channel_in(body@) == Some(channel@),
            Err(_) => channel_in(body@) is None,
        },
{
    let channel = rss::Channel::read_from(body)?;
    let items = channel.items().iter().map(
        |item| RawItem {
            title: item.title().map(|t| t.to_string()),
            link: item.link().map(|l| l.to_string()),
            description: item.description().map(|d| d.to_string()),
            enclosure_url: item.enclosure().map(|e| e.url().to_string()),
        },
    ).collect();
    Ok(RawChannel {
        title: channel.title().to_string(),
        link: channel.link().to_string(),
        description: channel.description().to_string(),
        items,
    })
}

/// The words that the feed source puts before every title.
pub open spec fn source_banner() -> Seq<char> {
    "Mikan Project - "@
}

/// Where the last segment of an address begins: after its last `/`.
pub open spec fn file_part(url: Seq<char>) -> int {
    last_index_of(url, '/', url.len() as int) + 1
}

/// The hash that the address of a release file names: its last segment up
/// to the first dot.
pub open spec fn hash_in_url(url: Seq<char>) -> Seq<char> {
    url.subrange(file_part(url), index_of(url, '.', file_part(url)))
}

/// A text that may be missing; empty where it is.
pub open spec fn or_empty(text: Option<Seq<char>>) -> Seq<char> {
    match text {
        Some(t) => t,
        None => Seq::empty(),
    }
}

/// The episode that a channel's entry stands for; a missing part is empty.
pub open spec fn episode_of_entry(entry: RawEntry) -> Episode {
    Episode {
        title: or_empty(entry.title),
        link: or_empty(entry.link),
        description: or_empty(entry.description),
        torrent_url: or_empty(entry.enclosure_url),
        torrent_hash: hash_in_url(or_empty(entry.enclosure_url)),
    }
}

/// The episodes that the entries of a channel stand for, in order.
pub open spec fn episodes_of(entries: Seq<RawEntry>) -> Seq<Episode> {
    Seq::new(entries.len(), |i: int| episode_of_entry(entries[i]))
}

/// The series feed that a channel stands for: title and description
/// without the source's banner, each entry as an episode, in order.
pub open spec fn feed_of_channel(channel: RawFeed) -> SeriesFeed {
    SeriesFeed {
        title: removed(channel.title, source_banner()),
        link: channel.link,
        description: removed(channel.description, source_banner()),
        items: episodes_of(channel.items),
    }
}

/// The hash that the address of a release file names.
pub fn hash_from_url(url: &str) -> (r: String)
    ensures
        r@ == hash_in_url(url@),
{
    let v = chars_of(url);
    let start = after_last(&v, '/', v.len());
    let end = find_from(&v, '.', start);
    string_of(&v, start, end)
}

fn text_or_empty(text: &Option<String>) -> (r: String)
    ensures
        r@ == or_empty(text.deep_view()),
{
    match text {
        Some(t) => t.clone(),
        None => String::new(),
    }
}

fn without_banner(text: &str) -> (r: String)
    ensures
        r@ == removed(text@, source_banner()),
{
    let v = chars_of(text);
    let banner = chars_of("Mikan Project - ");
    let bare = remove_all(&v, &banner);
    proof {
        assert(bare@.subrange(0, bare.len() as int) =~= bare@);
    }
    string_of(&bare, 0, bare.len())
}

impl RssEpisode {
    /// The episode that a channel's entry stands for.
    pub fn from_item(item: &RawItem) -> (r: RssEpisode)
        ensures
            r.deep_view() == episode_of_entry(item.deep_view()),
    {
        let torrent_url = text_or_empty(&item.enclosure_url);
        let torrent_hash = hash_from_url(torrent_url.as_str());
        RssEpisode {
            title: text_or_empty(&item.title),
            link: text_or_empty(&item.link),
            description: text_or_empty(&item.description),
            torrent_url,
            torrent_hash,
        }
    }
}

impl RssBangumi {
    /// The series feed that a channel stands for.
    pub fn from_channel(channel: &RawChannel) -> (r: RssBangumi)
        ensures
            r@ == feed_of_channel(channel@),
    {
        let mut items: Vec<RssEpisode> = Vec::new();
        let ghost all = channel.items.deep_view();
        let mut i: usize = 0;
        assert(items.deep_view() =~= episodes_of(all.take(0)));
        while i < channel.items.len()
            invariant
                i <= channel.items.len(),
                all == channel.items.deep_view(),
                items.deep_view() == episodes_of(all.take(i as int)),
            decreases channel.items.len() - i,
        {
            let ghost before = items.deep_view();
            let episode = RssEpisode::from_item(&channel.items[i]);
            let ghost added = episode.deep_view();
            assert(added == episode_of_entry(all[i as int]));
            items.push(episode);
            assert(items.deep_view() =~= before.push(added));
            assert(before.push(added) =~= episodes_of(all.take(i + 1)));
            i += 1;
        }
        proof {
            assert(all.take(channel.items.len() as int) =~= all);
        }
        RssBangumi {
            title: without_banner(channel.title.as_str()),
            link: channel.link.clone(),
            description: without_banner(channel.description.as_str()),
            items,
        }
    }
}

/// The series feed that a document holds, where elements stand no deeper
/// in it than `MAX_NESTING`, it holds no declaration of a document type,
/// and it reads as a channel.
pub open spec fn feed_in(body: Seq<u8>) -> Result<SeriesFeed, FeedError> {
    if !markup_is_shallow(body) {
        Err(FeedError::Unreadable)
    } else {
        match channel_in(body) {
            Some(channel) => Ok(feed_of_channel(channel)),
            None => Err(FeedError::Unreadable),
        }
    }
}

/// Reads a feed document.
pub fn parse_feed(body: &[u8]) -> (r: Result<RssBangumi, FeedError>)
    ensures
        match r {
            Ok(feed) => feed_in(body@) == Ok::<SeriesFeed, FeedError>(feed@),
            Err(e) => feed_in(body@) == Err::<SeriesFeed, FeedError>(e),
        },
{
    if !is_shallow_markup(body) {
        return Err(FeedError::Unreadable);
    }
    match read_channel(body) {
        Ok(channel) => Ok(RssBangumi::from_channel(&channel)),
        Err(_) => Err(FeedError::Unreadable),
    }
}

} // verus!
