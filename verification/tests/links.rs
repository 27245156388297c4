use nyaadle::engine::Transfer;
use nyaadle::run::{arg_dl, blank};

#[test]
fn blank_lines() {
    assert!(blank(""));
    assert!(blank("\n"));
    assert!(blank("  \t\r\n"));
    assert!(!blank("a"));
    assert!(!blank("  a  "));
    assert!(!blank("\u{a0}"));
}

#[test]
fn every_line_that_is_not_blank_is_a_target() {
    let links = vec![
        "https://example.org/a.torrent".to_string(),
        "".to_string(),
        "magnet:?xt=urn:btih:abc".to_string(),
        "\n".to_string(),
        "   ".to_string(),
        "https://example.org/b.torrent".to_string(),
    ];
    assert_eq!(
        arg_dl(links),
        vec![
            Transfer::Http("https://example.org/a.torrent".to_string()),
            Transfer::Magnet("magnet:?xt=urn:btih:abc".to_string()),
            Transfer::Http("https://example.org/b.torrent".to_string()),
        ]
    );
}

#[test]
fn same_link_twice_is_two_targets() {
    let links = vec!["https://example.org/a".to_string(), "https://example.org/a".to_string()];
    assert_eq!(arg_dl(links).len(), 2);
}

#[test]
fn no_links_no_targets() {
    assert_eq!(arg_dl(Vec::new()), Vec::<Transfer>::new());
    assert_eq!(arg_dl(vec!["".to_string()]), Vec::<Transfer>::new());
}

#[test]
fn magnet_is_known_by_its_prefix() {
    let links = vec![
        "magnet:?xt=urn:btih:abc".to_string(),
        "https://example.org/open?to=magnet:?xt=urn:btih:abc".to_string(),
        "magnet".to_string(),
        "Magnet:?xt=1".to_string(),
        "magnet:".to_string(),
    ];
    assert_eq!(
        arg_dl(links),
        vec![
            Transfer::Magnet("magnet:?xt=urn:btih:abc".to_string()),
            Transfer::Http("https://example.org/open?to=magnet:?xt=urn:btih:abc".to_string()),
            Transfer::Http("magnet".to_string()),
            Transfer::Http("Magnet:?xt=1".to_string()),
            Transfer::Magnet("magnet:".to_string()),
        ]
    );
}
