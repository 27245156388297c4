use nyaadle::args::{
    editor_choice, item_builder, parse_choice, screen_choice, settings_choice, EditorChoice,
    ParseChoice, Screen, SettingsChoice,
};

fn text(s: &str) -> Option<String> {
    Some(s.to_string())
}

#[test]
fn screen_by_flags() {
    assert_eq!(screen_choice(true, false), Screen::Settings);
    assert_eq!(screen_choice(false, true), Screen::Watchlist);
    assert_eq!(screen_choice(false, false), Screen::Main);
    assert_eq!(screen_choice(true, true), Screen::Main);
}

#[test]
fn parse_command() {
    assert_eq!(
        parse_choice(text("https://e.org/rss"), None, None),
        ParseChoice::WatchList { feed: "https://e.org/rss".to_string() }
    );
    assert_eq!(
        parse_choice(text("https://e.org/rss"), text("Alpha"), text("720")),
        ParseChoice::Single {
            url: text("https://e.org/rss"),
            title: "Alpha".to_string(),
            option: "720".to_string(),
        }
    );
    assert_eq!(
        parse_choice(None, text("Alpha"), text("non-vid")),
        ParseChoice::Single { url: None, title: "Alpha".to_string(), option: "non-vid".to_string() }
    );
    assert_eq!(parse_choice(None, text("Alpha"), None), ParseChoice::OptionRequired);
    assert_eq!(parse_choice(text("u"), text("Alpha"), None), ParseChoice::OptionRequired);
    assert_eq!(parse_choice(None, None, text("720")), ParseChoice::ItemRequired);
    assert_eq!(parse_choice(text("u"), None, text("720")), ParseChoice::ItemRequired);
    assert_eq!(parse_choice(None, None, None), ParseChoice::ItemRequired);
}

#[test]
fn editor_command() {
    assert_eq!(editor_choice(true, false, false, false), EditorChoice::Add);
    assert_eq!(editor_choice(false, false, true, false), EditorChoice::Edit);
    assert_eq!(editor_choice(false, true, false, false), EditorChoice::Delete);
    assert_eq!(editor_choice(false, false, false, true), EditorChoice::Print);
    assert_eq!(editor_choice(false, false, false, false), EditorChoice::Interface);
    assert_eq!(editor_choice(true, true, true, true), EditorChoice::Interface);
    assert_eq!(editor_choice(true, true, true, false), EditorChoice::Add);
    assert_eq!(editor_choice(false, true, true, true), EditorChoice::Edit);
    assert_eq!(editor_choice(false, true, false, true), EditorChoice::Delete);
}

#[test]
fn entry_needs_both_values() {
    assert_eq!(
        item_builder(text("Alpha"), text("720")),
        Some(("Alpha".to_string(), "720".to_string()))
    );
    assert_eq!(item_builder(text("Alpha"), None), None);
    assert_eq!(item_builder(None, text("720")), None);
    assert_eq!(item_builder(None, None), None);
}

#[test]
fn settings_command_stores_one_value() {
    assert_eq!(
        settings_choice(text("/d"), text("/a"), None, None, true, false, false, false, true),
        SettingsChoice::Store { key: "dl-dir".to_string(), value: "/d".to_string() }
    );
    assert_eq!(
        settings_choice(None, text("/a"), text("u"), None, false, false, false, false, false),
        SettingsChoice::Store { key: "ar-dir".to_string(), value: "/a".to_string() }
    );
    assert_eq!(
        settings_choice(None, None, text("u"), text("l"), false, false, false, false, false),
        SettingsChoice::Store { key: "url".to_string(), value: "u".to_string() }
    );
    assert_eq!(
        settings_choice(None, None, None, text("l"), false, false, false, false, false),
        SettingsChoice::Store { key: "log".to_string(), value: "l".to_string() }
    );
}

#[test]
fn settings_command_shows_what_is_asked() {
    assert_eq!(
        settings_choice(None, None, None, None, false, true, false, true, false),
        SettingsChoice::Show { keys: vec!["ar-dir".to_string(), "log".to_string()] }
    );
    assert_eq!(
        settings_choice(None, None, None, None, true, false, false, false, true),
        SettingsChoice::Show {
            keys: vec![
                "dl-dir".to_string(),
                "dl-dir".to_string(),
                "ar-dir".to_string(),
                "url".to_string(),
                "log".to_string(),
            ],
        }
    );
    assert_eq!(
        settings_choice(None, None, None, None, false, false, false, false, false),
        SettingsChoice::Interface
    );
}
