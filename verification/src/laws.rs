use vstd::prelude::*;
use crate::engine::{handle_match, run_entries, scan_items, StepView};
use crate::feed::Item;
use crate::matching::{verdict, Verdict};
use crate::text::is_substring;
use crate::tracking::{is_repeat, latest_of};
use crate::watchlist::WatchEntry;

verus! {

/// A step that neither consults nor changes the tracking state and asks for
/// no transfer.
pub open spec fn reports_only(step: StepView) -> bool {
    !(step is Attempt) && !(step is Skipped)
}

/// No step of the sequence asks for a transfer.
pub open spec fn no_attempts(steps: Seq<StepView>) -> bool {
    forall|i: int| 0 <= i < steps.len() ==> !(#[trigger] steps[i] is Attempt)
}

/// An entry without a title ends the run: its warning is the last step,
/// and whatever follows the entry in the watch-list has no part in what the
/// run does.
pub proof fn lemma_empty_title_halts(
    first: Seq<WatchEntry>,
    second: Seq<WatchEntry>,
    k: int,
    items: Seq<Item>,
    check: bool,
    tracking: Map<Seq<char>, Seq<char>>,
)
    requires
        0 <= k < first.len(),
        k < second.len(),
        forall|i: int| 0 <= i <= k ==> first[i] == second[i],
        first[k].title.len() == 0,
    ensures
        run_entries(first, items, check, tracking) == run_entries(second, items, check, tracking),
        run_entries(first, items, check, tracking).steps.len() > 0,
        run_entries(first, items, check, tracking).steps.last() == StepView::WatchlistMissing,
    decreases k,
{
    assert(first[0] == second[0]);
    if first[0].title.len() > 0 {
        let next = scan_items(first[0], items, check, tracking).tracking;
        assert forall|i: int| 0 <= i <= k - 1 implies first.drop_first()[i]
            == second.drop_first()[i] by {
            assert(first[i + 1] == second[i + 1]);
        }
        lemma_empty_title_halts(first.drop_first(), second.drop_first(), k - 1, items, check, next);
    }
}

/// The one step that says that the items are about to be held against an
/// entry.
pub open spec fn taken_up(entry: Seq<char>) -> Seq<StepView> {
    seq![StepView::Checking { entry }]
}

/// The one step that warns of an entry without an option.
pub open spec fn option_warning(entry: Seq<char>) -> Seq<StepView> {
    seq![StepView::OptionMissing { entry }]
}

/// An entry whose option is unset gets exactly one warning as soon as an
/// item holds its title: no item is matched for it, none after that item is
/// looked at, and the tracking state stays as it was.
pub proof fn lemma_unset_option_stops_entry(
    entry: WatchEntry,
    items: Seq<Item>,
    j: int,
    check: bool,
    tracking: Map<Seq<char>, Seq<char>>,
)
    requires
        entry.option.len() == 0,
        0 <= j < items.len(),
        is_substring(items[j].title, entry.title),
    ensures
        scan_items(entry, items, check, tracking).steps == option_warning(entry.title),
        scan_items(entry, items, check, tracking).tracking == tracking,
    decreases j,
{
    crate::matching::lemma_unset_option_never_matches(entry, items[0].title);
    if !is_substring(items[0].title, entry.title) {
        assert(items.drop_first()[j - 1] == items[j]);
        lemma_unset_option_stops_entry(entry, items.drop_first(), j - 1, check, tracking);
    }
}

/// After the warning for an entry whose option is unset, the run goes on
/// with the entries that follow it.
pub proof fn lemma_run_goes_on_after_unset_option(
    entries: Seq<WatchEntry>,
    items: Seq<Item>,
    j: int,
    check: bool,
    tracking: Map<Seq<char>, Seq<char>>,
)
    requires
        entries.len() > 0,
        entries[0].title.len() > 0,
        entries[0].option.len() == 0,
        0 <= j < items.len(),
        is_substring(items[j].title, entries[0].title),
    ensures
        run_entries(entries, items, check, tracking).steps == taken_up(entries[0].title)
            + option_warning(entries[0].title) + run_entries(
            entries.drop_first(),
            items,
            check,
            tracking,
        ).steps,
        run_entries(entries, items, check, tracking).tracking == run_entries(
            entries.drop_first(),
            items,
            check,
            tracking,
        ).tracking,
{
    lemma_unset_option_stops_entry(entries[0], items, j, check, tracking);
}

/// Holding the items against one entry in a run that only reports leaves
/// the tracking state alone and takes no step that consults it.
pub proof fn lemma_reporting_entry_is_read_only(
    entry: WatchEntry,
    items: Seq<Item>,
    tracking: Map<Seq<char>, Seq<char>>,
)
    ensures
        scan_items(entry, items, true, tracking).tracking == tracking,
        forall|i: int|
            0 <= i < scan_items(entry, items, true, tracking).steps.len() ==> reports_only(
                #[trigger] scan_items(entry, items, true, tracking).steps[i],
            ),
    decreases items.len(),
{
    if items.len() > 0 {
        lemma_reporting_entry_is_read_only(entry, items.drop_first(), tracking);
    }
}

/// A run that only reports never changes the tracking state and never asks
/// for a transfer, however many items match.
pub proof fn lemma_reporting_run_is_read_only(
    entries: Seq<WatchEntry>,
    items: Seq<Item>,
    tracking: Map<Seq<char>, Seq<char>>,
)
    ensures
        run_entries(entries, items, true, tracking).tracking == tracking,
        forall|i: int|
            0 <= i < run_entries(entries, items, true, tracking).steps.len() ==> reports_only(
                #[trigger] run_entries(entries, items, true, tracking).steps[i],
            ),
        no_attempts(run_entries(entries, items, true, tracking).steps),
    decreases entries.len(),
{
    if entries.len() > 0 && entries[0].title.len() > 0 {
        lemma_reporting_entry_is_read_only(entries[0], items, tracking);
        lemma_reporting_run_is_read_only(entries.drop_first(), items, tracking);
    }
    let steps = run_entries(entries, items, true, tracking).steps;
    assert forall|i: int| 0 <= i < steps.len() implies !(#[trigger] steps[i] is Attempt) by {
        assert(reports_only(steps[i]));
    }
}

/// What a run that only reports does is the same from every tracking
/// state: it never looks at it.
pub proof fn lemma_reporting_ignores_tracking(
    entries: Seq<WatchEntry>,
    items: Seq<Item>,
    first: Map<Seq<char>, Seq<char>>,
    second: Map<Seq<char>, Seq<char>>,
)
    ensures
        run_entries(entries, items, true, first).steps == run_entries(
            entries,
            items,
            true,
            second,
        ).steps,
    decreases entries.len(),
{
    if entries.len() > 0 && entries[0].title.len() > 0 {
        lemma_reporting_entry_ignores_tracking(entries[0], items, first, second);
        lemma_reporting_entry_is_read_only(entries[0], items, first);
        lemma_reporting_entry_is_read_only(entries[0], items, second);
        lemma_reporting_ignores_tracking(entries.drop_first(), items, first, second);
    }
}

proof fn lemma_reporting_entry_ignores_tracking(
    entry: WatchEntry,
    items: Seq<Item>,
    first: Map<Seq<char>, Seq<char>>,
    second: Map<Seq<char>, Seq<char>>,
)
    ensures
        scan_items(entry, items, true, first).steps == scan_items(entry, items, true, second).steps,
    decreases items.len(),
{
    if items.len() > 0 {
        lemma_reporting_entry_ignores_tracking(entry, items.drop_first(), first, second);
    }
}

/// The item at `j` is wanted by `entry`.
pub open spec fn wanted(entry: WatchEntry, items: Seq<Item>, j: int) -> bool {
    0 <= j < items.len() && verdict(entry, items[j].title) == Verdict::Match
}

/// The entry at `k` is reached by a run: no entry up to it lacks a title.
pub open spec fn reached(entries: Seq<WatchEntry>, k: int) -> bool {
    0 <= k < entries.len() && forall|i: int| 0 <= i <= k ==> (#[trigger] entries[i]).title.len() > 0
}

/// All items that one entry wants have the same title.
pub open spec fn one_title_wanted(entry: WatchEntry, items: Seq<Item>) -> bool {
    forall|a: int, b: int|
        #![trigger wanted(entry, items, a), wanted(entry, items, b)]
        wanted(entry, items, a) && wanted(entry, items, b) ==> items[a].title == items[b].title
}

/// Whatever the entries that a run reaches want under one key has one
/// title. The tracking state keeps a single item for each key, so only
/// then can it tell every wanted item from a new one.
pub open spec fn one_title_per_key(entries: Seq<WatchEntry>, items: Seq<Item>) -> bool {
    forall|k: int, l: int, a: int, b: int|
        #![trigger wanted(entries[k], items, a), wanted(entries[l], items, b)]
        reached(entries, k) && reached(entries, l) && entries[k].title == entries[l].title
            && wanted(entries[k], items, a) && wanted(entries[l], items, b) ==> items[a].title
            == items[b].title
}

/// Every item that a reached entry wants is the latest one of its key.
pub open spec fn settled(
    entries: Seq<WatchEntry>,
    items: Seq<Item>,
    tracking: Map<Seq<char>, Seq<char>>,
) -> bool {
    forall|k: int, a: int|
        #![trigger wanted(entries[k], items, a)]
        reached(entries, k) && wanted(entries[k], items, a) ==> is_repeat(
            tracking,
            entries[k].title,
            items[a].title,
        )
}

proof fn lemma_wanted_shifts(entry: WatchEntry, items: Seq<Item>, a: int)
    requires
        items.len() > 0,
    ensures
        wanted(entry, items.drop_first(), a) <==> (a >= 0 && wanted(entry, items, a + 1)),
{
    if 0 <= a < items.len() - 1 {
        assert(items.drop_first()[a] == items[a + 1]);
    }
}

proof fn lemma_reached_shifts(entries: Seq<WatchEntry>, k: int)
    requires
        entries.len() > 0,
        entries[0].title.len() > 0,
    ensures
        reached(entries.drop_first(), k) <==> (k >= 0 && reached(entries, k + 1)),
{
    let rest = entries.drop_first();
    if 0 <= k < rest.len() {
        if reached(rest, k) {
            assert forall|i: int| 0 <= i <= k + 1 implies (#[trigger] entries[i]).title.len()
                > 0 by {
                if i > 0 {
                    assert(rest[i - 1] == entries[i]);
                }
            }
        }
        if reached(entries, k + 1) {
            assert forall|i: int| 0 <= i <= k implies (#[trigger] rest[i]).title.len() > 0 by {
                assert(rest[i] == entries[i + 1]);
            }
        }
    }
}

/// What one entry does to the tracking state in a run that downloads, where
/// all that it wants has one title: that title becomes the latest item of
/// its key, and no other key is touched.
proof fn lemma_entry_settles(entry: WatchEntry, items: Seq<Item>, tracking: Map<Seq<char>, Seq<char>>)
    requires
        one_title_wanted(entry, items),
    ensures
        forall|a: int|
            wanted(entry, items, a) ==> is_repeat(
                scan_items(entry, items, false, tracking).tracking,
                entry.title,
                #[trigger] items[a].title,
            ),
        forall|key: Seq<char>|
            key != entry.title ==> #[trigger] latest_of(
                scan_items(entry, items, false, tracking).tracking,
                key,
            ) == latest_of(tracking, key),
        (forall|a: int| !wanted(entry, items, a)) ==> scan_items(
            entry,
            items,
            false,
            tracking,
        ).tracking == tracking,
    decreases items.len(),
{
    if items.len() > 0 {
        let rest = items.drop_first();
        let after = scan_items(entry, items, false, tracking).tracking;
        assert forall|a: int, b: int|
            #![trigger wanted(entry, rest, a), wanted(entry, rest, b)]
            wanted(entry, rest, a) && wanted(entry, rest, b) implies rest[a].title
            == rest[b].title by {
            lemma_wanted_shifts(entry, items, a);
            lemma_wanted_shifts(entry, items, b);
            assert(wanted(entry, items, a + 1) && wanted(entry, items, b + 1));
        }
        match verdict(entry, items[0].title) {
            Verdict::TitleMiss | Verdict::OptionMiss => {
                lemma_entry_settles(entry, rest, tracking);
                assert forall|a: int| wanted(entry, items, a) implies is_repeat(
                    after,
                    entry.title,
                    #[trigger] items[a].title,
                ) by {
                    assert(a > 0);
                    lemma_wanted_shifts(entry, items, a - 1);
                    assert(rest[a - 1] == items[a]);
                }
                if forall|a: int| !wanted(entry, items, a) {
                    assert forall|a: int| !wanted(entry, rest, a) by {
                        lemma_wanted_shifts(entry, items, a);
                    }
                }
            },
            Verdict::OptionUnset => {
                assert forall|a: int| wanted(entry, items, a) implies is_repeat(
                    after,
                    entry.title,
                    #[trigger] items[a].title,
                ) by {
                    crate::matching::lemma_unset_option_never_matches(entry, items[a].title);
                }
            },
            Verdict::Match => {
                assert(wanted(entry, items, 0));
                let next = handle_match(items[0], entry.title, tracking).tracking;
                assert(is_repeat(next, entry.title, items[0].title));
                lemma_entry_settles(entry, rest, next);
                assert(after == scan_items(entry, rest, false, next).tracking);
                assert forall|a: int| wanted(entry, items, a) implies is_repeat(
                    after,
                    entry.title,
                    #[trigger] items[a].title,
                ) by {
                    if a > 0 {
                        lemma_wanted_shifts(entry, items, a - 1);
                        assert(rest[a - 1] == items[a]);
                    } else if exists|b: int| wanted(entry, rest, b) {
                        let b = choose|b: int| wanted(entry, rest, b);
                        lemma_wanted_shifts(entry, items, b);
                        assert(rest[b] == items[b + 1]);
                        assert(wanted(entry, items, b + 1));
                        assert(items[b + 1].title == items[0].title);
                    } else {
                        assert(after == next);
                    }
                }
            },
        }
    }
}

/// Once every wanted item is the latest one of its key, an entry attempts
/// nothing and leaves the tracking state as it is.
proof fn lemma_settled_entry_rests(
    entry: WatchEntry,
    items: Seq<Item>,
    tracking: Map<Seq<char>, Seq<char>>,
)
    requires
        forall|a: int|
            wanted(entry, items, a) ==> is_repeat(tracking, entry.title, #[trigger] items[a].title),
    ensures
        scan_items(entry, items, false, tracking).tracking == tracking,
        no_attempts(scan_items(entry, items, false, tracking).steps),
    decreases items.len(),
{
    if items.len() > 0 {
        let rest = items.drop_first();
        assert forall|a: int| wanted(entry, rest, a) implies is_repeat(
            tracking,
            entry.title,
            #[trigger] rest[a].title,
        ) by {
            lemma_wanted_shifts(entry, items, a);
            assert(rest[a] == items[a + 1]);
        }
        if verdict(entry, items[0].title) == Verdict::Match {
            assert(wanted(entry, items, 0));
            assert(is_repeat(tracking, entry.title, items[0].title));
        }
        lemma_settled_entry_rests(entry, rest, tracking);
    }
}

/// A run over a settled tracking state attempts nothing and changes
/// nothing.
pub proof fn lemma_settled_run_rests(
    entries: Seq<WatchEntry>,
    items: Seq<Item>,
    tracking: Map<Seq<char>, Seq<char>>,
)
    requires
        settled(entries, items, tracking),
    ensures
        run_entries(entries, items, false, tracking).tracking == tracking,
        no_attempts(run_entries(entries, items, false, tracking).steps),
    decreases entries.len(),
{
    if entries.len() > 0 && entries[0].title.len() > 0 {
        let rest = entries.drop_first();
        assert(reached(entries, 0));
        assert forall|a: int| wanted(entries[0], items, a) implies is_repeat(
            tracking,
            entries[0].title,
            #[trigger] items[a].title,
        ) by {}
        lemma_settled_entry_rests(entries[0], items, tracking);
        assert forall|k: int, a: int|
            #![trigger wanted(rest[k], items, a)]
            reached(rest, k) && wanted(rest[k], items, a) implies is_repeat(
            tracking,
            rest[k].title,
            items[a].title,
        ) by {
            lemma_reached_shifts(entries, k);
            assert(rest[k] == entries[k + 1]);
            assert(wanted(entries[k + 1], items, a));
        }
        lemma_settled_run_rests(rest, items, tracking);
    }
}

/// A run that downloads, where what is wanted under one key has one title,
/// leaves every wanted item as the latest one of its key, and keeps what it
/// found for the keys under which nothing is wanted.
proof fn lemma_run_settles(
    entries: Seq<WatchEntry>,
    items: Seq<Item>,
    tracking: Map<Seq<char>, Seq<char>>,
)
    requires
        one_title_per_key(entries, items),
    ensures
        settled(entries, items, run_entries(entries, items, false, tracking).tracking),
        forall|key: Seq<char>|
            (forall|k: int, a: int|
                #![trigger wanted(entries[k], items, a)]
                reached(entries, k) && wanted(entries[k], items, a) ==> entries[k].title != key)
                ==> #[trigger] latest_of(
                run_entries(entries, items, false, tracking).tracking,
                key,
            ) == latest_of(tracking, key),
    decreases entries.len(),
{
    let after = run_entries(entries, items, false, tracking).tracking;
    if entries.len() == 0 || entries[0].title.len() == 0 {
        assert forall|k: int| !reached(entries, k) by {
            if 0 <= k < entries.len() {
                assert(entries[0].title.len() == 0);
            }
        }
    } else {
        let head = entries[0];
        let rest = entries.drop_first();
        let next = scan_items(head, items, false, tracking).tracking;
        assert(reached(entries, 0));
        assert(one_title_wanted(head, items)) by {
            assert forall|a: int, b: int|
                #![trigger wanted(head, items, a), wanted(head, items, b)]
                wanted(head, items, a) && wanted(head, items, b) implies items[a].title
                == items[b].title by {
                assert(wanted(entries[0], items, a) && wanted(entries[0], items, b));
            }
        }
        lemma_entry_settles(head, items, tracking);
        assert(one_title_per_key(rest, items)) by {
            assert forall|k: int, l: int, a: int, b: int|
                #![trigger wanted(rest[k], items, a), wanted(rest[l], items, b)]
                reached(rest, k) && reached(rest, l) && rest[k].title == rest[l].title && wanted(
                    rest[k],
                    items,
                    a,
                ) && wanted(rest[l], items, b) implies items[a].title == items[b].title by {
                lemma_reached_shifts(entries, k);
                lemma_reached_shifts(entries, l);
                assert(rest[k] == entries[k + 1]);
                assert(rest[l] == entries[l + 1]);
                assert(wanted(entries[k + 1], items, a) && wanted(entries[l + 1], items, b));
            }
        }
        lemma_run_settles(rest, items, next);
        assert(after == run_entries(rest, items, false, next).tracking);
        assert forall|k: int, a: int|
            #![trigger wanted(entries[k], items, a)]
            reached(entries, k) && wanted(entries[k], items, a) implies is_repeat(
            after,
            entries[k].title,
            items[a].title,
        ) by {
            if k > 0 {
                lemma_reached_shifts(entries, k - 1);
                assert(rest[k - 1] == entries[k]);
                assert(wanted(rest[k - 1], items, a));
            } else if exists|l: int, b: int|
                reached(rest, l) && wanted(rest[l], items, b) && rest[l].title == head.title {
                let (l, b) = choose|l: int, b: int|
                    reached(rest, l) && wanted(rest[l], items, b) && rest[l].title == head.title;
                lemma_reached_shifts(entries, l);
                assert(rest[l] == entries[l + 1]);
                assert(wanted(entries[l + 1], items, b) && wanted(entries[0], items, a));
                assert(items[b].title == items[a].title);
            } else {
                assert forall|l: int, b: int|
                    #![trigger wanted(rest[l], items, b)]
                    reached(rest, l) && wanted(rest[l], items, b) implies rest[l].title
                    != head.title by {}
                assert(latest_of(after, head.title) == latest_of(next, head.title));
                assert(is_repeat(next, head.title, items[a].title));
            }
        }
        assert forall|key: Seq<char>|
            (forall|k: int, a: int|
                #![trigger wanted(entries[k], items, a)]
                reached(entries, k) && wanted(entries[k], items, a) ==> entries[k].title
                    != key) implies #[trigger] latest_of(after, key) == latest_of(
            tracking,
            key,
        ) by {
            assert forall|l: int, b: int|
                #![trigger wanted(rest[l], items, b)]
                reached(rest, l) && wanted(rest[l], items, b) implies rest[l].title != key by {
                lemma_reached_shifts(entries, l);
                assert(rest[l] == entries[l + 1]);
                assert(wanted(entries[l + 1], items, b));
            }
            assert(latest_of(after, key) == latest_of(next, key));
            if key == head.title {
                assert forall|a: int| !wanted(head, items, a) by {
                    if wanted(head, items, a) {
                        assert(wanted(entries[0], items, a));
                    }
                }
            }
        }
    }
}

/// A second run over the same feed and the same watch-list, started from
/// the tracking state that the first run left, attempts no transfer and
/// leaves the tracking state as it found it.
///
/// This holds where all that the reached entries want under one key has one
/// title: the tracking state remembers one item for each key, and a second
/// wanted title under that key would make each of the two look new in turn.
pub proof fn lemma_second_run_downloads_nothing(
    entries: Seq<WatchEntry>,
    items: Seq<Item>,
    tracking: Map<Seq<char>, Seq<char>>,
)
    requires
        one_title_per_key(entries, items),
    ensures
        ({
            let first = run_entries(entries, items, false, tracking);
            let second = run_entries(entries, items, false, first.tracking);
            &&& no_attempts(second.steps)
            &&& second.tracking == first.tracking
        }),
{
    let first = run_entries(entries, items, false, tracking);
    lemma_run_settles(entries, items, tracking);
    lemma_settled_run_rests(entries, items, first.tracking);
}

} // verus!
