use vstd::prelude::*;
use vstd::string::*;
use crate::text::{is_substring, str_contains, str_eq};
use crate::watchlist::{any_format, WatchEntry, Watchlist};

verus! {

/// What a watch-list entry says of one feed item's title.
#[derive(Debug, Clone, Copy, PartialEq, Eq, Structural)]
pub enum Verdict {
    /// The title does not hold the entry's title.
    TitleMiss,
    /// The title holds the entry's title, but the entry has no option set.
    OptionUnset,
    /// The title holds the entry's title, but not the option it asks for.
    OptionMiss,
    /// The item is wanted.
    Match,
}

/// The verdict of `entry` on an item with the given title.
pub open spec fn verdict(entry: WatchEntry, title: Seq<char>) -> Verdict {
    if !is_substring(title, entry.title) {
        Verdict::TitleMiss
    } else if entry.option == any_format() {
        Verdict::Match
    } else if entry.option.len() == 0 {
        Verdict::OptionUnset
    } else if is_substring(title, entry.option) {
        Verdict::Match
    } else {
        Verdict::OptionMiss
    }
}

/// Judges one item title against one entry.
pub fn judge(entry: &Watchlist, title: &str) -> (v: Verdict)
    ensures
        v == verdict(entry@, title@),
        entry.option@ == any_format() ==> (v == Verdict::Match <==> is_substring(
            title@,
            entry.title@,
        )),
        entry.option@ != any_format() && entry.option@.len() > 0 ==> (v == Verdict::Match <==> (
        is_substring(title@, entry.title@) && is_substring(title@, entry.option@))),
{
    if !str_contains(title, entry.title.as_str()) {
        return Verdict::TitleMiss;
    }
    if str_eq(entry.option.as_str(), "non-vid") {
        Verdict::Match
    } else if entry.option.as_str().is_empty() {
        Verdict::OptionUnset
    } else if str_contains(title, entry.option.as_str()) {
        Verdict::Match
    } else {
        Verdict::OptionMiss
    }
}

/// With the option that asks for every format, an item matches exactly when
/// its title holds the entry's title, whatever else the title holds.
pub proof fn lemma_any_format_matches_on_title_alone(entry: WatchEntry, title: Seq<char>)
    requires
        entry.option == any_format(),
    ensures
        verdict(entry, title) == Verdict::Match <==> is_substring(title, entry.title),
{
}

/// With any other option that is not empty, an item matches exactly when its
/// title holds both the entry's title and the entry's option.
pub proof fn lemma_token_matches_on_title_and_option(entry: WatchEntry, title: Seq<char>)
    requires
        entry.option != any_format(),
        entry.option.len() > 0,
    ensures
        verdict(entry, title) == Verdict::Match <==> (is_substring(title, entry.title)
            && is_substring(title, entry.option)),
{
}

/// An entry without an option matches nothing.
pub proof fn lemma_unset_option_never_matches(entry: WatchEntry, title: Seq<char>)
    requires
        entry.option.len() == 0,
    ensures
        verdict(entry, title) != Verdict::Match,
        verdict(entry, title) == Verdict::OptionUnset <==> is_substring(title, entry.title),
{
    reveal_strlit("non-vid");
}

} // verus!
