use vstd::prelude::*;
use vstd::string::*;

verus! {

/// The mathematical content of a watch-list entry.
pub struct WatchEntry {
    pub id: int,
    pub title: Seq<char>,
    pub option: Seq<char>,
}

/// One row of the watch-list: a title pattern and the option that selects
/// which of the matching feed items are wanted.
#[derive(Debug, PartialEq, Eq)]
pub struct Watchlist {
    pub id: i32,
    pub title: String,
    pub option: String,
}

impl View for Watchlist {
    type V = WatchEntry;

    open spec fn view(&self) -> WatchEntry {
        WatchEntry { id: self.id as int, title: self.title@, option: self.option@ }
    }
}

impl DeepView for Watchlist {
    type V = WatchEntry;

    open spec fn deep_view(&self) -> WatchEntry {
        self@
    }
}

impl Clone for Watchlist {
    fn clone(&self) -> (copy: Self)
        ensures
            copy == *self,
    {
        Watchlist { id: self.id, title: self.title.clone(), option: self.option.clone() }
    }
}

/// The option that asks for every item whose title matches.
pub open spec fn any_format() -> Seq<char> {
    "non-vid"@
}

impl Watchlist {
    /// An entry with no title and no option.
    pub fn new() -> (entry: Watchlist)
        ensures
            entry@ == (WatchEntry { id: 0, title: Seq::empty(), option: Seq::empty() }),
    {
        Watchlist { id: 0, title: String::new(), option: String::new() }
    }

    /// Replaces all three fields.
    pub fn build(self, id: i32, title: String, option: String) -> (entry: Watchlist)
        ensures
            entry@ == (WatchEntry { id: id as int, title: title@, option: option@ }),
            entry.title == title,
            entry.option == option,
    {
        let mut entry = self;
        entry.id = id;
        entry.title = title;
        entry.option = option;
        entry
    }

    /// The entry a fresh store starts with: no title, every format wanted.
    pub fn default() -> (entry: Watchlist)
        ensures
            entry@ == (WatchEntry { id: 0, title: Seq::empty(), option: any_format() }),
    {
        Watchlist { id: 0, title: String::new(), option: String::from_str("non-vid") }
    }
}

/// Whether a title and an option make an entry that can be written to the
/// watch-list: neither may be empty.
pub fn is_complete(title: &str, option: &str) -> (complete: bool)
    ensures
        complete == (title@.len() > 0 && option@.len() > 0),
{
    !title.is_empty() && !option.is_empty()
}

/// A watch-list of exactly one entry, made of the three values given.
pub fn wl_builder(id: i32, item: String, opt: String) -> (list: Vec<Watchlist>)
    ensures
        list.len() == 1,
        list[0]@ == (WatchEntry { id: id as int, title: item@, option: opt@ }),
{
    let entry = Watchlist::new().build(id, item, opt);
    let mut list: Vec<Watchlist> = Vec::new();
    list.push(entry);
    list
}

} // verus!
