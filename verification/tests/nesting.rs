use nyaadle::feed::{read_items, FeedError, FeedItem};
use nyaadle::nesting::{nesting, NESTING_LIMIT};
use nyaadle::run::{feed_check, feed_parser};
use nyaadle::tracking::{get_tracking, update_tracking, TrackingTable};
use nyaadle::watchlist::wl_builder;

fn nested(open: &str, close: &str, times: usize) -> String {
    let mut text = String::new();
    for _ in 0..times {
        text.push_str(open);
    }
    for _ in 0..times {
        text.push_str(close);
    }
    text
}

#[test]
fn depth_of_plain_elements() {
    assert_eq!(nesting(b""), 0);
    assert_eq!(nesting(b"no markup at all"), 0);
    assert_eq!(nesting(b"<a></a>"), 1);
    assert_eq!(nesting(b"<a><b></b></a>"), 2);
    assert_eq!(nesting(b"<a><b></b><c></c><d><e></e></d></a>"), 3);
    assert_eq!(nesting(b"<a><b><c>"), 3);
}

#[test]
fn element_that_closes_itself_adds_no_depth() {
    assert_eq!(nesting(b"<a/><b/><c/>"), 1);
    assert_eq!(nesting(b"<a><b/><c x='1' /><d/></a>"), 2);
    assert_eq!(nesting(b"<a b='/'>"), 1);
    assert_eq!(nesting(b"<a b='/'><c>"), 2);
}

#[test]
fn channel_of_many_items_is_shallow() {
    let mut text = String::from("<?xml version=\"1.0\" encoding=\"utf-8\"?><rss version=\"2.0\"><channel>");
    for _ in 0..500 {
        text.push_str("<item><title>A</title><x:seeders>5</x:seeders><guid isPermaLink=\"true\">g</guid></item>");
    }
    text.push_str("</channel></rss>");
    assert_eq!(nesting(text.as_bytes()), 4);
}

#[test]
fn tags_in_quotes_sections_and_comments_do_not_count() {
    assert_eq!(nesting(b"<a b=\"><c><d>\"></a>"), 1);
    assert_eq!(nesting(b"<a b='><c>'><d></d></a>"), 2);
    assert_eq!(nesting(b"<a><![CDATA[<b><c><d>]]></a>"), 1);
    assert_eq!(nesting(b"<a><!-- <b><c> --></a>"), 1);
    assert_eq!(nesting(b"<?xml <a><b> ?><a></a>"), 1);
}

#[test]
fn closing_tags_inside_other_markup_take_nothing_off() {
    assert_eq!(nesting(b"<a><!-- </a></a> --><b><c>"), 3);
    assert_eq!(nesting(b"<a><![CDATA[</a></a>]]><b><c>"), 3);
    assert_eq!(nesting(b"<a><b c='</b></a>'><c><d>"), 4);
    assert_eq!(nesting(b"<a><? </a> ?><b>"), 2);
    assert_eq!(nesting(b"</a></a><b><c>"), 2);
}

#[test]
fn short_comment_and_section_ends() {
    assert_eq!(nesting(b"<!--><a>--><b>"), 1);
    assert_eq!(nesting(b"<!---><a>--><b>"), 1);
    assert_eq!(nesting(b"<!----><a><b>"), 2);
    assert_eq!(nesting(b"<![]><a>]]><b>"), 1);
    assert_eq!(nesting(b"<?><a>"), 1);
}

#[test]
fn document_type_counts_every_angle_bracket() {
    assert_eq!(nesting(b"<!DOCTYPE x><a></a><b></b>"), 4);
    assert_eq!(nesting(b"<a><!doctype x [ <!ENTITY e 'v'> ]></a>"), 3);
    assert_eq!(nesting(b"<!x><a></a>"), 2);
}

#[test]
fn deep_nesting_is_refused_before_it_is_read() {
    let at_limit = nested("<x:e>", "</x:e>", NESTING_LIMIT);
    assert_eq!(nesting(at_limit.as_bytes()), NESTING_LIMIT);
    assert_eq!(read_items(at_limit.as_bytes()), Err(FeedError::Unreadable));
    let beyond = nested("<x:e>", "</x:e>", NESTING_LIMIT + 1);
    assert_eq!(nesting(beyond.as_bytes()), NESTING_LIMIT + 1);
    assert_eq!(read_items(beyond.as_bytes()), Err(FeedError::TooDeep));
    let far_beyond = nested("<x:e>", "", 100_000);
    assert_eq!(read_items(far_beyond.as_bytes()), Err(FeedError::TooDeep));
}

#[test]
fn channel_nested_up_to_the_limit_is_read() {
    let mut text = String::from("<rss version=\"2.0\"><channel><title>t</title><item><title>A</title>");
    text.push_str(&nested("<x:e>", "</x:e>", NESTING_LIMIT - 3));
    text.push_str("</item></channel></rss>");
    assert_eq!(nesting(text.as_bytes()), NESTING_LIMIT);
    assert_eq!(
        read_items(text.as_bytes()),
        Ok(vec![FeedItem { title: "A".to_string(), link: None }])
    );
}

#[test]
fn channel_nested_beyond_the_limit_is_not_read() {
    let mut text = String::from("<rss version=\"2.0\"><channel><title>t</title><item><title>A</title>");
    text.push_str(&nested("<x:e>", "</x:e>", NESTING_LIMIT - 2));
    text.push_str("</item></channel></rss>");
    assert_eq!(read_items(text.as_bytes()), Err(FeedError::TooDeep));
}

#[test]
fn run_over_a_feed_that_is_too_deep_looks_at_no_item() {
    let mut text = String::from("<rss version=\"2.0\"><channel><title>t</title><item><title>A</title>");
    text.push_str(&nested("<x:e>", "</x:e>", 5_000));
    text.push_str("</item></channel></rss>");
    let mut table = TrackingTable::new();
    update_tracking(&mut table, "A", "before");
    let watch_list = wl_builder(0, "A".to_string(), "non-vid".to_string());
    assert_eq!(
        feed_parser(text.as_bytes(), watch_list.clone(), &mut table),
        Err(FeedError::TooDeep)
    );
    assert_eq!(get_tracking(&table, "A"), "before");
    assert_eq!(feed_check(text.as_bytes(), watch_list), Err(FeedError::TooDeep));
    assert_eq!(
        FeedError::TooDeep.message(),
        "Unable to read the feed: it is nested too deeply. Exiting..."
    );
}
