use nyaadle::engine::{Step, Transfer};
use nyaadle::feed::{extract_items, read_items, FeedError, FeedItem};
use nyaadle::run::{feed_check, feed_parser};
use nyaadle::tracking::{get_tracking, update_tracking, TrackingTable};
use nyaadle::watchlist::{wl_builder, Watchlist};

const CHANNEL: &str = "<?xml version=\"1.0\" encoding=\"UTF-8\"?>\
<rss version=\"2.0\"><channel><title>Feed</title><link>https://example.org</link>\
<description>All of it</description>\
<item><title>Alpha Episode 1 [1080p]</title><link>https://example.org/d/1.torrent</link></item>\
<item><title>Alpha Episode 1 [720p]</title><link>https://example.org/d/2.torrent</link></item>\
<item><title>Beta Book Vol.1</title></item>\
</channel></rss>";

const UNTITLED: &str = "<rss version=\"2.0\"><channel><title>Feed</title>\
<item><title>First</title></item>\
<item><link>https://example.org/d/9.torrent</link></item>\
<item><title>Third</title></item>\
</channel></rss>";

#[test]
fn channel_is_read_item_by_item() {
    let items = read_items(CHANNEL.as_bytes()).unwrap();
    assert_eq!(
        items,
        vec![
            FeedItem {
                title: "Alpha Episode 1 [1080p]".to_string(),
                link: Some("https://example.org/d/1.torrent".to_string()),
            },
            FeedItem {
                title: "Alpha Episode 1 [720p]".to_string(),
                link: Some("https://example.org/d/2.torrent".to_string()),
            },
            FeedItem { title: "Beta Book Vol.1".to_string(), link: None },
        ]
    );
}

#[test]
fn bytes_that_are_no_channel_are_unreadable() {
    assert_eq!(read_items(b"not a feed at all"), Err(FeedError::Unreadable));
    assert_eq!(read_items(b""), Err(FeedError::Unreadable));
    assert_eq!(read_items(b"<html><body>503</body></html>"), Err(FeedError::Unreadable));
}

#[test]
fn item_without_title_is_named_by_its_place() {
    assert_eq!(read_items(UNTITLED.as_bytes()), Err(FeedError::MissingTitle { index: 1 }));
}

#[test]
fn extraction_keeps_order_and_links() {
    let raw = vec![
        (Some("A".to_string()), None),
        (Some("B".to_string()), Some("magnet:?xt=1".to_string())),
    ];
    assert_eq!(
        extract_items(&raw),
        Ok(vec![
            FeedItem { title: "A".to_string(), link: None },
            FeedItem { title: "B".to_string(), link: Some("magnet:?xt=1".to_string()) },
        ])
    );
    assert_eq!(extract_items(&Vec::new()), Ok(Vec::new()));
}

#[test]
fn extraction_reports_the_first_untitled_item() {
    let raw = vec![
        (Some("A".to_string()), None),
        (None, Some("https://example.org/x".to_string())),
        (None, None),
    ];
    assert_eq!(extract_items(&raw), Err(FeedError::MissingTitle { index: 1 }));
    assert_eq!(extract_items(&vec![(None, None)]), Err(FeedError::MissingTitle { index: 0 }));
}

#[test]
fn error_messages() {
    assert_eq!(FeedError::Unreadable.message(), "Unable to connect to website. Exiting...");
    assert_eq!(FeedError::MissingTitle { index: 4 }.message(), "Failed to extract Post title");
}

#[test]
fn parser_runs_the_watch_list_over_the_feed() {
    let mut table = TrackingTable::new();
    let watch_list = vec![
        Watchlist { id: 1, title: "Alpha".to_string(), option: "1080".to_string() },
        Watchlist { id: 2, title: "Beta".to_string(), option: "non-vid".to_string() },
    ];
    let plan = feed_parser(CHANNEL.as_bytes(), watch_list, &mut table).unwrap();
    assert_eq!(
        plan,
        vec![
            Step::Checking { entry: "Alpha".to_string() },
            Step::Attempt {
                key: "Alpha".to_string(),
                item: "Alpha Episode 1 [1080p]".to_string(),
                transfer: Transfer::Http("https://example.org/d/1.torrent".to_string()),
            },
            Step::Checking { entry: "Beta".to_string() },
            Step::Attempt {
                key: "Beta".to_string(),
                item: "Beta Book Vol.1".to_string(),
                transfer: Transfer::Missing,
            },
        ]
    );
    assert_eq!(get_tracking(&table, "Alpha"), "Alpha Episode 1 [1080p]");
}

#[test]
fn unreadable_feed_ends_the_run_before_any_item() {
    let mut table = TrackingTable::new();
    update_tracking(&mut table, "Alpha", "Alpha 0");
    let watch_list = wl_builder(0, "Alpha".to_string(), "non-vid".to_string());
    assert_eq!(
        feed_parser(b"<html>gateway timeout</html>", watch_list.clone(), &mut table),
        Err(FeedError::Unreadable)
    );
    assert_eq!(get_tracking(&table, "Alpha"), "Alpha 0");
    assert_eq!(feed_check(b"<html>gateway timeout</html>", watch_list), Err(FeedError::Unreadable));
}

#[test]
fn check_reports_every_match() {
    let watch_list = wl_builder(0, "Alpha".to_string(), "non-vid".to_string());
    let plan = feed_check(CHANNEL.as_bytes(), watch_list).unwrap();
    assert_eq!(
        plan,
        vec![
            Step::Checking { entry: "Alpha".to_string() },
            Step::Found { item: "Alpha Episode 1 [1080p]".to_string() },
            Step::Found { item: "Alpha Episode 1 [720p]".to_string() },
        ]
    );
}
