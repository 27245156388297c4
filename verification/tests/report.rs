use nyaadle::engine::{Step, Transfer};
use nyaadle::report::{decimal_text, describe, summarize, RunSummary};

#[test]
fn only_ones_count() {
    assert_eq!(summarize(&vec![1, 0, 1, 1, 0]), RunSummary { downloaded: 3 });
    assert_eq!(summarize(&vec![0, 0]), RunSummary { downloaded: 0 });
    assert_eq!(summarize(&Vec::new()), RunSummary { downloaded: 0 });
    assert_eq!(summarize(&vec![2, 255, 1]), RunSummary { downloaded: 1 });
}

#[test]
fn closing_line() {
    assert_eq!(RunSummary { downloaded: 0 }.message(), "No items downloaded. Nyaadle closed.");
    assert_eq!(RunSummary { downloaded: 1 }.message(), "1 items downloaded. Nyaadle closed.");
    assert_eq!(RunSummary { downloaded: 2 }.message(), "2 items downloaded. Nyaadle closed.");
    assert_eq!(RunSummary { downloaded: 120 }.message(), "120 items downloaded. Nyaadle closed.");
}

#[test]
fn numbers_in_decimal() {
    assert_eq!(decimal_text(0), "0");
    assert_eq!(decimal_text(7), "7");
    assert_eq!(decimal_text(10), "10");
    assert_eq!(decimal_text(4096), "4096");
    assert_eq!(decimal_text(907), "907");
    assert_eq!(decimal_text(usize::MAX), usize::MAX.to_string());
}

#[test]
fn line_for_each_step() {
    assert_eq!(describe(&Step::Checking { entry: "Alpha".to_string() }), "Checking for Alpha");
    assert_eq!(
        describe(&Step::WatchlistMissing),
        "Please set a watch-list by running 'nyaadle tui --watch-list'"
    );
    assert_eq!(
        describe(&Step::OptionMissing { entry: "Alpha".to_string() }),
        "Please set a download option using 'nyaadle tui --watch-list'"
    );
    assert_eq!(describe(&Step::Found { item: "Alpha 1".to_string() }), "Found Alpha 1");
    assert_eq!(
        describe(&Step::Skipped { item: "Alpha 1".to_string() }),
        "Item already downloaded. Skipping..."
    );
    assert_eq!(
        describe(&Step::Attempt {
            key: "Alpha".to_string(),
            item: "Alpha 1".to_string(),
            transfer: Transfer::Missing,
        }),
        "Downloading Alpha 1"
    );
}
