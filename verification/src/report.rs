use vstd::prelude::*;
use vstd::string::*;
use crate::engine::{Step, StepView};

verus! {

/// What a run achieved: the number of items that were downloaded.
#[derive(Debug, Clone, Copy, PartialEq, Eq, Structural)]
pub struct RunSummary {
    pub downloaded: usize,
}

/// The number of transfers that ended in a download, given what each one
/// added: a 1 counts, anything else does not.
pub open spec fn downloads(counts: Seq<u8>) -> nat
    decreases counts.len(),
{
    if counts.len() == 0 {
        0
    } else if counts.last() == 1 {
        downloads(counts.drop_last()) + 1
    } else {
        downloads(counts.drop_last())
    }
}

/// The character of a decimal digit.
pub open spec fn digit(d: nat) -> char {
    if d == 0 {
        '0'
    } else if d == 1 {
        '1'
    } else if d == 2 {
        '2'
    } else if d == 3 {
        '3'
    } else if d == 4 {
        '4'
    } else if d == 5 {
        '5'
    } else if d == 6 {
        '6'
    } else if d == 7 {
        '7'
    } else if d == 8 {
        '8'
    } else {
        '9'
    }
}

/// A number written in decimal digits, without leading zeros.
pub open spec fn decimal(n: nat) -> Seq<char>
    decreases n,
{
    if n < 10 {
        seq![digit(n)]
    } else {
        decimal(n / 10).push(digit(n % 10))
    }
}

/// The line that closes a run.
pub open spec fn summary_line(downloaded: nat) -> Seq<char> {
    if downloaded == 0 {
        "No items downloaded. Nyaadle closed."@
    } else {
        decimal(downloaded) + " items downloaded. Nyaadle closed."@
    }
}

/// What is said where no watch-list is configured.
pub open spec fn watchlist_hint() -> Seq<char> {
    "Please set a watch-list by running 'nyaadle tui --watch-list'"@
}

/// What is said of an entry that has no option.
pub open spec fn option_hint() -> Seq<char> {
    "Please set a download option using 'nyaadle tui --watch-list'"@
}

/// The line that tells of a step.
pub open spec fn line_of(step: StepView) -> Seq<char> {
    match step {
        StepView::Checking { entry } => "Checking for "@ + entry,
        StepView::WatchlistMissing => watchlist_hint(),
        StepView::OptionMissing { .. } => option_hint(),
        StepView::Found { item } => "Found "@ + item,
        StepView::Skipped { .. } => "Item already downloaded. Skipping..."@,
        StepView::Attempt { item, .. } => "Downloading "@ + item,
    }
}

fn digit_text(d: usize) -> (text: &'static str)
    requires
        d < 10,
    ensures
        text@ == seq![digit(d as nat)],
{
    proof {
        reveal_strlit("0");
        reveal_strlit("1");
        reveal_strlit("2");
        reveal_strlit("3");
        reveal_strlit("4");
        reveal_strlit("5");
        reveal_strlit("6");
        reveal_strlit("7");
        reveal_strlit("8");
        reveal_strlit("9");
    }
    let text = if d == 0 {
        "0"
    } else if d == 1 {
        "1"
    } else if d == 2 {
        "2"
    } else if d == 3 {
        "3"
    } else if d == 4 {
        "4"
    } else if d == 5 {
        "5"
    } else if d == 6 {
        "6"
    } else if d == 7 {
        "7"
    } else if d == 8 {
        "8"
    } else {
        "9"
    };
    assert(text@ =~= seq![digit(d as nat)]);
    text
}

/// Writes a number in decimal digits.
pub fn decimal_text(n: usize) -> (text: String)
    ensures
        text@ == decimal(n as nat),
    decreases n,
{
    if n < 10 {
        digit_text(n).to_owned()
    } else {
        let mut text = decimal_text(n / 10);
        text.append(digit_text(n % 10));
        assert(text@ =~= decimal((n / 10) as nat).push(digit((n % 10) as nat)));
        text
    }
}

/// Counts the downloads among what the transfers of a run added.
pub fn summarize(counts: &Vec<u8>) -> (summary: RunSummary)
    ensures
        summary.downloaded == downloads(counts@),
        summary.downloaded <= counts.len(),
{
    let mut downloaded: usize = 0;
    let mut i: usize = 0;
    assert(counts@.take(0) =~= Seq::<u8>::empty());
    while i < counts.len()
        invariant
            i <= counts.len(),
            downloaded <= i,
            downloaded == downloads(counts@.take(i as int)),
        decreases counts.len() - i,
    {
        proof {
            assert(counts@.take(i + 1).drop_last() =~= counts@.take(i as int));
            assert(counts@.take(i + 1).last() == counts@[i as int]);
        }
        if counts[i] == 1 {
            downloaded = downloaded + 1;
        }
        i = i + 1;
    }
    assert(counts@.take(i as int) =~= counts@);
    RunSummary { downloaded }
}

impl RunSummary {
    /// The line that closes the run.
    pub fn message(&self) -> (line: String)
        ensures
            line@ == summary_line(self.downloaded as nat),
    {
        if self.downloaded == 0 {
            "No items downloaded. Nyaadle closed.".to_owned()
        } else {
            let mut line = decimal_text(self.downloaded);
            line.append(" items downloaded. Nyaadle closed.");
            line
        }
    }
}

/// The line that tells of a step.
pub fn describe(step: &Step) -> (line: String)
    ensures
        line@ == line_of(step@),
{
    match step {
        Step::Checking { entry } => {
            let mut line = "Checking for ".to_owned();
            line.append(entry.as_str());
            line
        },
        Step::WatchlistMissing => {
            "Please set a watch-list by running 'nyaadle tui --watch-list'".to_owned()
        },
        Step::OptionMissing { .. } => {
            "Please set a download option using 'nyaadle tui --watch-list'".to_owned()
        },
        Step::Found { item } => {
            let mut line = "Found ".to_owned();
            line.append(item.as_str());
            line
        },
        Step::Skipped { .. } => "Item already downloaded. Skipping...".to_owned(),
        Step::Attempt { item, .. } => {
            let mut line = "Downloading ".to_owned();
            line.append(item.as_str());
            line
        },
    }
}

} // verus!
