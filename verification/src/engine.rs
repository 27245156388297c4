use vstd::prelude::*;
use vstd::string::*;
use crate::feed::{FeedItem, Item};
use crate::laws::{lemma_reporting_run_is_read_only, no_attempts};
use crate::matching::{judge, verdict, Verdict};
use crate::text::{is_prefix, starts_with};
use crate::tracking::{is_repeat, tracking_check, TrackingTable};
use crate::watchlist::{WatchEntry, Watchlist};

verus! {

/// The mathematical content of a [`Transfer`].
pub enum TransferView {
    Missing,
    Magnet(Seq<char>),
    Http(Seq<char>),
}

/// How a wanted item is to be had.
#[derive(Debug, Clone, PartialEq, Eq)]
pub enum Transfer {
    /// The item has no link: there is nothing to transfer.
    Missing,
    /// The link is a magnet reference, to be handed to the system's opener.
    Magnet(String),
    /// The link is an address to fetch.
    Http(String),
}

impl View for Transfer {
    type V = TransferView;

    open spec fn view(&self) -> TransferView {
        match self {
            Transfer::Missing => TransferView::Missing,
            Transfer::Magnet(target) => TransferView::Magnet(target@),
            Transfer::Http(target) => TransferView::Http(target@),
        }
    }
}

impl DeepView for Transfer {
    type V = TransferView;

    open spec fn deep_view(&self) -> TransferView {
        self@
    }
}

/// The mathematical content of a [`Step`].
pub enum StepView {
    Checking { entry: Seq<char> },
    WatchlistMissing,
    OptionMissing { entry: Seq<char> },
    Found { item: Seq<char> },
    Skipped { item: Seq<char> },
    Attempt { key: Seq<char>, item: Seq<char>, transfer: TransferView },
}

/// One thing a run does that can be seen from outside, in the order in
/// which the run does it.
#[derive(Debug, Clone, PartialEq, Eq)]
pub enum Step {
    /// The items are about to be held against the entry of this title.
    Checking { entry: String },
    /// An entry without a title was met: no watch-list is configured, and
    /// the run ends here.
    WatchlistMissing,
    /// An item matched the title of this entry, which has no option: the
    /// rest of the items is not held against it.
    OptionMissing { entry: String },
    /// The item matched while the run only reports.
    Found { item: String },
    /// The item matched but is the one handled last for its entry.
    Skipped { item: String },
    /// The item matched and is due: it becomes the latest item of `key`,
    /// and the transfer is to be carried out.
    Attempt { key: String, item: String, transfer: Transfer },
}

impl View for Step {
    type V = StepView;

    open spec fn view(&self) -> StepView {
        match self {
            Step::Checking { entry } => StepView::Checking { entry: entry@ },
            Step::WatchlistMissing => StepView::WatchlistMissing,
            Step::OptionMissing { entry } => StepView::OptionMissing { entry: entry@ },
            Step::Found { item } => StepView::Found { item: item@ },
            Step::Skipped { item } => StepView::Skipped { item: item@ },
            Step::Attempt { key, item, transfer } => StepView::Attempt {
                key: key@,
                item: item@,
                transfer: transfer@,
            },
        }
    }
}

impl DeepView for Step {
    type V = StepView;

    open spec fn deep_view(&self) -> StepView {
        self@
    }
}

/// The steps taken so far and the tracking state they leave.
pub struct Progress {
    pub steps: Seq<StepView>,
    pub tracking: Map<Seq<char>, Seq<char>>,
}

/// The prefix by which a magnet reference is known.
pub open spec fn magnet_mark() -> Seq<char> {
    "magnet:"@
}

/// A target is a magnet reference when it begins with the magnet prefix.
pub open spec fn is_magnet(target: Seq<char>) -> bool {
    is_prefix(target, magnet_mark())
}

/// The transfer that a link asks for.
pub open spec fn transfer_for(link: Option<Seq<char>>) -> TransferView {
    match link {
        None => TransferView::Missing,
        Some(target) => if is_magnet(target) {
            TransferView::Magnet(target)
        } else {
            TransferView::Http(target)
        },
    }
}

/// What happens to an item that matched the entry `key` in a run that
/// downloads: a repeat is skipped; anything else becomes the latest item of
/// the entry and is attempted.
pub open spec fn handle_match(
    item: Item,
    key: Seq<char>,
    tracking: Map<Seq<char>, Seq<char>>,
) -> Progress {
    if is_repeat(tracking, key, item.title) {
        Progress { steps: seq![StepView::Skipped { item: item.title }], tracking }
    } else {
        Progress {
            steps: seq![
                StepView::Attempt { key, item: item.title, transfer: transfer_for(item.link) },
            ],
            tracking: tracking.insert(key, item.title),
        }
    }
}

/// The items held against one entry, in feed order.
pub open spec fn scan_items(
    entry: WatchEntry,
    items: Seq<Item>,
    check: bool,
    tracking: Map<Seq<char>, Seq<char>>,
) -> Progress
    decreases items.len(),
{
    if items.len() == 0 {
        Progress { steps: Seq::empty(), tracking }
    } else {
        let item = items[0];
        match verdict(entry, item.title) {
            Verdict::TitleMiss | Verdict::OptionMiss => scan_items(
                entry,
                items.drop_first(),
                check,
                tracking,
            ),
            Verdict::OptionUnset => Progress {
                steps: seq![StepView::OptionMissing { entry: entry.title }],
                tracking,
            },
            Verdict::Match => {
                let first = if check {
                    Progress { steps: seq![StepView::Found { item: item.title }], tracking }
                } else {
                    handle_match(item, entry.title, tracking)
                };
                let rest = scan_items(entry, items.drop_first(), check, first.tracking);
                Progress { steps: first.steps + rest.steps, tracking: rest.tracking }
            },
        }
    }
}

/// The entries of the watch-list taken in order, each against all items.
pub open spec fn run_entries(
    entries: Seq<WatchEntry>,
    items: Seq<Item>,
    check: bool,
    tracking: Map<Seq<char>, Seq<char>>,
) -> Progress
    decreases entries.len(),
{
    if entries.len() == 0 {
        Progress { steps: Seq::empty(), tracking }
    } else if entries[0].title.len() == 0 {
        Progress { steps: seq![StepView::WatchlistMissing], tracking }
    } else {
        let first = scan_items(entries[0], items, check, tracking);
        let rest = run_entries(entries.drop_first(), items, check, first.tracking);
        Progress {
            steps: seq![StepView::Checking { entry: entries[0].title }] + first.steps + rest.steps,
            tracking: rest.tracking,
        }
    }
}

/// Decides what is done with an item that matched the entry `wl_title`.
pub fn download_logic(item: &FeedItem, wl_title: &str, table: &mut TrackingTable) -> (step: Step)
    requires
        old(table).wf(),
    ensures
        final(table).wf(),
        seq![step@] == handle_match(item@, wl_title@, old(table)@).steps,
        final(table)@ == handle_match(item@, wl_title@, old(table)@).tracking,
{
    if tracking_check(table, item.title.as_str(), wl_title) {
        return Step::Skipped { item: item.title.clone() };
    }
    let transfer = match &item.link {
        None => Transfer::Missing,
        Some(target) => if starts_with(target.as_str(), "magnet:") {
            Transfer::Magnet(target.clone())
        } else {
            Transfer::Http(target.clone())
        },
    };
    Step::Attempt { key: wl_title.to_owned(), item: item.title.clone(), transfer }
}

/// Holds every item against one entry and says what is done for each.
pub fn check_entry(
    entry: &Watchlist,
    items: &Vec<FeedItem>,
    check: bool,
    table: &mut TrackingTable,
) -> (steps: Vec<Step>)
    requires
        old(table).wf(),
    ensures
        final(table).wf(),
        steps.deep_view() == scan_items(entry@, items.deep_view(), check, old(table)@).steps,
        final(table)@ == scan_items(entry@, items.deep_view(), check, old(table)@).tracking,
{
    let ghost all = items.deep_view();
    let ghost start = table@;
    let mut steps: Vec<Step> = Vec::new();
    let mut j: usize = 0;
    assert(all.skip(0) =~= all);
    assert(steps.deep_view() =~= Seq::<StepView>::empty());
    while j < items.len()
        invariant
            j <= items.len(),
            all == items.deep_view(),
            start == old(table)@,
            table.wf(),
            scan_items(entry@, all, check, start).steps == steps.deep_view() + scan_items(
                entry@,
                all.skip(j as int),
                check,
                table@,
            ).steps,
            scan_items(entry@, all, check, start).tracking == scan_items(
                entry@,
                all.skip(j as int),
                check,
                table@,
            ).tracking,
        decreases items.len() - j,
    {
        let item = &items[j];
        let ghost rest = all.skip(j as int);
        let ghost before = steps.deep_view();
        proof {
            assert(rest.len() > 0);
            assert(rest[0] == item@);
            assert(rest.drop_first() =~= all.skip(j + 1));
        }
        match judge(entry, item.title.as_str()) {
            Verdict::TitleMiss | Verdict::OptionMiss => {},
            Verdict::OptionUnset => {
                steps.push(Step::OptionMissing { entry: entry.title.clone() });
                assert(steps.deep_view() =~= before.push(
                    StepView::OptionMissing { entry: entry@.title },
                ));
                return steps;
            },
            Verdict::Match => {
                let step = if check {
                    Step::Found { item: item.title.clone() }
                } else {
                    download_logic(item, entry.title.as_str(), table)
                };
                let ghost shown = step@;
                steps.push(step);
                proof {
                    assert(steps.deep_view() =~= before.push(shown));
                    let tail = scan_items(entry@, all.skip(j + 1), check, table@).steps;
                    assert(before + (seq![shown] + tail) =~= before.push(shown) + tail);
                }
            },
        }
        j = j + 1;
    }
    steps
}

/// Holds the feed against the watch-list and says, in order, everything the
/// run does.
///
/// The entries are taken in the order of the list. An entry without a title
/// ends the run. Against every other entry each item is judged in feed
/// order; an item that matches is reported where `check` is set, and handled
/// by [`download_logic`] where it is not. An entry whose option is unset
/// loses the rest of the items as soon as one holds its title.
pub fn nyaadle_logic(
    items: Vec<FeedItem>,
    watch_list: Vec<Watchlist>,
    check: bool,
    table: &mut TrackingTable,
) -> (plan: Vec<Step>)
    requires
        old(table).wf(),
    ensures
        final(table).wf(),
        plan.deep_view() == run_entries(
            watch_list.deep_view(),
            items.deep_view(),
            check,
            old(table)@,
        ).steps,
        final(table)@ == run_entries(
            watch_list.deep_view(),
            items.deep_view(),
            check,
            old(table)@,
        ).tracking,
        check ==> final(table)@ == old(table)@ && no_attempts(plan.deep_view()),
{
    let ghost entries = watch_list.deep_view();
    let ghost all = items.deep_view();
    let ghost start = table@;
    let mut plan: Vec<Step> = Vec::new();
    let mut k: usize = 0;
    assert(entries.skip(0) =~= entries);
    assert(plan.deep_view() =~= Seq::<StepView>::empty());
    while k < watch_list.len()
        invariant
            k <= watch_list.len(),
            entries == watch_list.deep_view(),
            all == items.deep_view(),
            start == old(table)@,
            table.wf(),
            run_entries(entries, all, check, start).steps == plan.deep_view() + run_entries(
                entries.skip(k as int),
                all,
                check,
                table@,
            ).steps,
            run_entries(entries, all, check, start).tracking == run_entries(
                entries.skip(k as int),
                all,
                check,
                table@,
            ).tracking,
        decreases watch_list.len() - k,
    {
        let entry = &watch_list[k];
        let ghost rest = entries.skip(k as int);
        let ghost before = plan.deep_view();
        proof {
            assert(rest.len() > 0);
            assert(rest[0] == entry@);
            assert(rest.drop_first() =~= entries.skip(k + 1));
        }
        if entry.title.as_str().is_empty() {
            plan.push(Step::WatchlistMissing);
            proof {
                assert(plan.deep_view() =~= before.push(StepView::WatchlistMissing));
                if check {
                    lemma_reporting_run_is_read_only(entries, all, start);
                }
            }
            return plan;
        }
        plan.push(Step::Checking { entry: entry.title.clone() });
        let ghost opened = plan.deep_view();
        assert(opened =~= before.push(StepView::Checking { entry: entry@.title }));
        let ghost held = table@;
        let mut steps = check_entry(entry, &items, check, table);
        let ghost found = steps.deep_view();
        plan.append(&mut steps);
        proof {
            assert(plan.deep_view() =~= opened + found);
            let tail = run_entries(entries.skip(k + 1), all, check, table@).steps;
            assert(before + (seq![StepView::Checking { entry: entry@.title }] + found + tail)
                =~= opened + found + tail);
        }
        k = k + 1;
    }
    proof {
        if check {
            lemma_reporting_run_is_read_only(entries, all, start);
        }
    }
    plan
}

} // verus!
