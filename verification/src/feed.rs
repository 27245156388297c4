use vstd::prelude::*;
use vstd::string::*;
use crate::nesting::{nesting, nesting_bound, NESTING_LIMIT};

verus! {

/// The mathematical content of a feed item.
pub struct Item {
    pub title: Seq<char>,
    pub link: Option<Seq<char>>,
}

/// One item of a feed: its title and, where the feed gives one, its link.
#[derive(Debug, PartialEq, Eq)]
pub struct FeedItem {
    pub title: String,
    pub link: Option<String>,
}

impl View for FeedItem {
    type V = Item;

    open spec fn view(&self) -> Item {
        Item {
            title: self.title@,
            link: match self.link {
                Some(link) => Some(link@),
                None => None,
            },
        }
    }
}

impl DeepView for FeedItem {
    type V = Item;

    open spec fn deep_view(&self) -> Item {
        self@
    }
}

impl Clone for FeedItem {
    fn clone(&self) -> (copy: Self)
        ensures
            copy == *self,
    {
        FeedItem {
            title: self.title.clone(),
            link: match &self.link {
                Some(link) => Some(link.clone()),
                None => None,
            },
        }
    }
}

/// Why a feed gave no items.
#[derive(Debug, Clone, Copy, PartialEq, Eq, Structural)]
pub enum FeedError {
    /// The channel may nest its elements more deeply than a reader can
    /// follow: it is not read at all.
    TooDeep,
    /// The bytes are not a channel that can be read.
    Unreadable,
    /// The item at this place in the channel has no title.
    MissingTitle { index: usize },
}

/// What is said of a feed that gave no items.
pub open spec fn error_line(error: FeedError) -> Seq<char> {
    match error {
        FeedError::TooDeep => "Unable to read the feed: it is nested too deeply. Exiting..."@,
        FeedError::Unreadable => "Unable to connect to website. Exiting..."@,
        FeedError::MissingTitle { .. } => "Failed to extract Post title"@,
    }
}

impl FeedError {
    /// What is said of this error.
    pub fn message(&self) -> (line: String)
        ensures
            line@ == error_line(*self),
    {
        match self {
            FeedError::TooDeep => {
                "Unable to read the feed: it is nested too deeply. Exiting...".to_owned()
            },
            FeedError::Unreadable => "Unable to connect to website. Exiting...".to_owned(),
            FeedError::MissingTitle { .. } => "Failed to extract Post title".to_owned(),
        }
    }
}

/// `rss::Error`, the error that the channel reader gives. Nothing is known
/// of a value of it but that it is there.
#[verifier::external_type_specification]
#[verifier::external_body]
pub struct ExChannelError(rss::Error);

/// The title and the link of each item, in the order of the channel, that
/// `rss::Channel::read_from` reads from the bytes; `None` where it reports
/// an error.
pub uninterp spec fn channel_items(content: Seq<u8>) -> Option<
    Seq<(Option<Seq<char>>, Option<Seq<char>>)>,
>;

/// Reads a channel and hands out the title and the link of each item.
///
/// Calls `rss::Channel::read_from` on the bytes, then `Channel::items`, and
/// `Item::title` and `Item::link` on each item. The reader works on the
/// bytes alone, so the same bytes always give the same items or an error;
/// the contract gives that result its name and claims nothing else of it.
///
/// The reader follows nested extension elements by calling itself, once
/// for each element that is open, so bytes that nest elements without end
/// would exhaust the stack. The `requires` leaves them out. The reader
/// enters a call on a tag that opens an element and leaves it on the tag
/// that closes one, and it stops at the first error. The scan behind
/// [`nesting_bound`] splits the bytes into text and markup as the reader's
/// tokenizer does, counts every tag that opens an element, and takes one
/// off only for a tag that the tokenizer reads as closing one. Where it
/// does not follow the tokenizer, in a document type declaration, it counts
/// every `<` and takes nothing off. So the reader is never more calls deep
/// than the bound, which is at most [`NESTING_LIMIT`].
#[verifier::external_body]
fn read_channel(content: &[u8]) -> (read: Result<Vec<(Option<String>, Option<String>)>, rss::Error>)
    requires
        nesting_bound(content@) <= NESTING_LIMIT,
    ensures
        match read {
            Ok(raw) => channel_items(content@) == Some(raw.deep_view()),
            Err(_) => channel_items(content@) is None,
        },
{
    let channel = rss::Channel::read_from(content)?;
    Ok(
        channel.items().iter().map(
            |item| (item.title().map(String::from), item.link().map(String::from)),
        ).collect(),
    )
}

/// The place of the first item without a title.
pub open spec fn first_untitled(raw: Seq<(Option<Seq<char>>, Option<Seq<char>>)>) -> Option<int>
    decreases raw.len(),
{
    if raw.len() == 0 {
        None
    } else if raw[0].0 is None {
        Some(0)
    } else {
        match first_untitled(raw.drop_first()) {
            Some(i) => Some(i + 1),
            None => None,
        }
    }
}

/// The items of a channel in which every item has a title.
pub open spec fn titled(raw: Seq<(Option<Seq<char>>, Option<Seq<char>>)>) -> Seq<Item> {
    Seq::new(raw.len(), |i: int| Item { title: raw[i].0.unwrap(), link: raw[i].1 })
}

/// The items that titles and links stand for: all of them where each has a
/// title, and otherwise the place of the first that has none.
pub open spec fn items_of(raw: Seq<(Option<Seq<char>>, Option<Seq<char>>)>) -> Result<
    Seq<Item>,
    FeedError,
> {
    match first_untitled(raw) {
        Some(i) => Err(FeedError::MissingTitle { index: i as usize }),
        None => Ok(titled(raw)),
    }
}

/// The items of the feed that the bytes hold. Bytes whose elements may be
/// nested more deeply than the limit are not read.
pub open spec fn read_feed(content: Seq<u8>) -> Result<Seq<Item>, FeedError> {
    if nesting_bound(content) > NESTING_LIMIT {
        Err(FeedError::TooDeep)
    } else {
        match channel_items(content) {
            None => Err(FeedError::Unreadable),
            Some(raw) => items_of(raw),
        }
    }
}

proof fn lemma_first_untitled(raw: Seq<(Option<Seq<char>>, Option<Seq<char>>)>, n: int)
    requires
        0 <= n <= raw.len(),
        forall|i: int| 0 <= i < n ==> (#[trigger] raw[i]).0 is Some,
    ensures
        first_untitled(raw) == match first_untitled(raw.skip(n)) {
            Some(i) => Some(i + n),
            None => None,
        },
    decreases n,
{
    if n == 0 {
        assert(raw.skip(0) =~= raw);
    } else {
        let rest = raw.drop_first();
        assert forall|i: int| 0 <= i < n - 1 implies (#[trigger] rest[i]).0 is Some by {
            assert(rest[i] == raw[i + 1]);
        }
        lemma_first_untitled(rest, n - 1);
        assert(rest.skip(n - 1) =~= raw.skip(n));
        assert(raw[0].0 is Some);
    }
}

/// Makes feed items of titles and links. An item without a title is an
/// error, and the error names the first such item.
pub fn extract_items(raw: &Vec<(Option<String>, Option<String>)>) -> (made: Result<
    Vec<FeedItem>,
    FeedError,
>)
    ensures
        match made {
            Ok(items) => items_of(raw.deep_view()) == Ok::<Seq<Item>, FeedError>(
                items.deep_view(),
            ),
            Err(e) => items_of(raw.deep_view()) == Err::<Seq<Item>, FeedError>(e),
        },
{
    let ghost all = raw.deep_view();
    let mut items: Vec<FeedItem> = Vec::new();
    let mut i: usize = 0;
    while i < raw.len()
        invariant
            i <= raw.len(),
            all == raw.deep_view(),
            items.len() == i,
            forall|a: int| 0 <= a < i ==> (#[trigger] all[a]).0 is Some,
            forall|a: int|
                0 <= a < i ==> (#[trigger] items[a])@ == (Item {
                    title: all[a].0.unwrap(),
                    link: all[a].1,
                }),
        decreases raw.len() - i,
    {
        assert(all[i as int] == raw[i as int].deep_view());
        let link = match &raw[i].1 {
            Some(link) => Some(link.clone()),
            None => None,
        };
        match &raw[i].0 {
            Some(title) => {
                items.push(FeedItem { title: title.clone(), link });
            },
            None => {
                proof {
                    lemma_first_untitled(all, i as int);
                    assert(all.skip(i as int)[0] == all[i as int]);
                }
                return Err(FeedError::MissingTitle { index: i });
            },
        }
        i = i + 1;
    }
    proof {
        lemma_first_untitled(all, i as int);
        assert(all.skip(i as int).len() == 0);
        assert(items.deep_view() =~= titled(all));
    }
    Ok(items)
}

/// Reads the items of a feed from its bytes.
pub fn read_items(content: &[u8]) -> (read: Result<Vec<FeedItem>, FeedError>)
    ensures
        match read {
            Ok(items) => read_feed(content@) == Ok::<Seq<Item>, FeedError>(items.deep_view()),
            Err(e) => read_feed(content@) == Err::<Seq<Item>, FeedError>(e),
        },
{
    if nesting(content) > NESTING_LIMIT {
        return Err(FeedError::TooDeep);
    }
    match read_channel(content) {
        Ok(raw) => extract_items(&raw),
        Err(_) => Err(FeedError::Unreadable),
    }
}

} // verus!
