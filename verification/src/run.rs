use vstd::prelude::*;
use vstd::string::*;
use crate::engine::{nyaadle_logic, run_entries, transfer_for, Step, Transfer, TransferView};
use crate::feed::{read_feed, read_items, FeedError};
use crate::laws::{lemma_reporting_ignores_tracking, lemma_reporting_run_is_read_only, no_attempts};
use crate::text::starts_with;
use crate::tracking::TrackingTable;
use crate::watchlist::Watchlist;

verus! {

/// Reads the feed from its bytes and holds it against the watch-list in a
/// run that downloads.
///
/// A feed that cannot be read ends the run before any item is looked at:
/// there are no steps, and the tracking state is as it was.
pub fn feed_parser(content: &[u8], watch_list: Vec<Watchlist>, table: &mut TrackingTable) -> (run:
    Result<Vec<Step>, FeedError>)
    requires
        old(table).wf(),
    ensures
        final(table).wf(),
        match read_feed(content@) {
            Ok(items) => {
                &&& run is Ok
                &&& run->Ok_0.deep_view() == run_entries(
                    watch_list.deep_view(),
                    items,
                    false,
                    old(table)@,
                ).steps
                &&& final(table)@ == run_entries(
                    watch_list.deep_view(),
                    items,
                    false,
                    old(table)@,
                ).tracking
            },
            Err(e) => run == Err::<Vec<Step>, FeedError>(e) && final(table)@ == old(table)@,
        },
{
    match read_items(content) {
        Ok(items) => Ok(nyaadle_logic(items, watch_list, false, table)),
        Err(e) => Err(e),
    }
}

/// Reads the feed from its bytes and reports what the watch-list wants of
/// it. Nothing is attempted, and no tracking state is looked at or changed:
/// the run has none.
pub fn feed_check(content: &[u8], watch_list: Vec<Watchlist>) -> (run: Result<
    Vec<Step>,
    FeedError,
>)
    ensures
        match read_feed(content@) {
            Ok(items) => {
                &&& run is Ok
                &&& no_attempts(run->Ok_0.deep_view())
                &&& forall|tracking: Map<Seq<char>, Seq<char>>|
                    run->Ok_0.deep_view() == #[trigger] run_entries(
                        watch_list.deep_view(),
                        items,
                        true,
                        tracking,
                    ).steps
            },
            Err(e) => run == Err::<Vec<Step>, FeedError>(e),
        },
{
    match read_items(content) {
        Ok(items) => {
            let ghost entries = watch_list.deep_view();
            let ghost all = items.deep_view();
            let mut scratch = TrackingTable::new();
            let plan = nyaadle_logic(items, watch_list, true, &mut scratch);
            proof {
                let empty = Map::<Seq<char>, Seq<char>>::empty();
                lemma_reporting_run_is_read_only(entries, all, empty);
                assert forall|tracking: Map<Seq<char>, Seq<char>>|
                    plan.deep_view() == #[trigger] run_entries(
                        entries,
                        all,
                        true,
                        tracking,
                    ).steps by {
                    lemma_reporting_ignores_tracking(entries, all, empty, tracking);
                }
            }
            Ok(plan)
        },
        Err(e) => Err(e),
    }
}

/// A character that leaves a line blank.
pub open spec fn is_space(c: char) -> bool {
    c == ' ' || c == '\t' || c == '\n' || c == '\r'
}

/// A line that holds nothing but spaces, tabs and line ends, or nothing at
/// all.
pub open spec fn is_blank(line: Seq<char>) -> bool {
    forall|i: int| 0 <= i < line.len() ==> is_space(#[trigger] line[i])
}

/// The transfers that a list of links asks for: one for each line that is
/// not blank, in the order of the list.
pub open spec fn link_targets(links: Seq<Seq<char>>) -> Seq<TransferView>
    decreases links.len(),
{
    if links.len() == 0 {
        Seq::empty()
    } else {
        let before = link_targets(links.drop_last());
        if is_blank(links.last()) {
            before
        } else {
            before.push(transfer_for(Some(links.last())))
        }
    }
}

/// Whether a line is blank.
pub fn blank(line: &str) -> (b: bool)
    ensures
        b == is_blank(line@),
{
    let n = line.unicode_len();
    let mut i: usize = 0;
    while i < n
        invariant
            n == line@.len(),
            i <= n,
            forall|a: int| 0 <= a < i ==> is_space(#[trigger] line@[a]),
        decreases n - i,
    {
        let c = line.get_char(i);
        if !(c == ' ' || c == '\t' || c == '\n' || c == '\r') {
            assert(!is_space(line@[i as int]));
            return false;
        }
        i = i + 1;
    }
    true
}

/// Turns a list of links into the transfers to carry out: every line that
/// is not blank is one target, a magnet reference or an address to fetch.
/// No tracking state has a part in it.
pub fn arg_dl(links: Vec<String>) -> (transfers: Vec<Transfer>)
    ensures
        transfers.deep_view() == link_targets(links.deep_view()),
{
    let ghost all = links.deep_view();
    let mut transfers: Vec<Transfer> = Vec::new();
    let mut i: usize = 0;
    assert(all.take(0) =~= Seq::<Seq<char>>::empty());
    assert(transfers.deep_view() =~= Seq::<TransferView>::empty());
    while i < links.len()
        invariant
            i <= links.len(),
            all == links.deep_view(),
            transfers.deep_view() == link_targets(all.take(i as int)),
        decreases links.len() - i,
    {
        let link = &links[i];
        let ghost before = transfers.deep_view();
        proof {
            assert(all.take(i + 1).drop_last() =~= all.take(i as int));
            assert(all.take(i + 1).last() == link@);
        }
        if !blank(link.as_str()) {
            let transfer = if starts_with(link.as_str(), "magnet:") {
                Transfer::Magnet(link.clone())
            } else {
                Transfer::Http(link.clone())
            };
            let ghost shown = transfer@;
            transfers.push(transfer);
            assert(transfers.deep_view() =~= before.push(shown));
        }
        i = i + 1;
    }
    assert(all.take(i as int) =~= all);
    transfers
}

} // verus!
