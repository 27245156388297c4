use vstd::prelude::*;
use vstd::string::*;

verus! {

/// Which screen the terminal interface opens on.
#[derive(Debug, Clone, Copy, PartialEq, Eq, Structural)]
pub enum Screen {
    Main,
    Settings,
    Watchlist,
}

/// The screen that the two flags of the interface command ask for: one of
/// the editors where exactly its flag is set, the main screen otherwise.
pub open spec fn screen_for(settings: bool, watchlist: bool) -> Screen {
    if settings && !watchlist {
        Screen::Settings
    } else if !settings && watchlist {
        Screen::Watchlist
    } else {
        Screen::Main
    }
}

/// Picks the screen to open.
pub fn screen_choice(settings: bool, watchlist: bool) -> (screen: Screen)
    ensures
        screen == screen_for(settings, watchlist),
{
    if settings && !watchlist {
        Screen::Settings
    } else if !settings && watchlist {
        Screen::Watchlist
    } else {
        Screen::Main
    }
}

/// The mathematical content of a [`ParseChoice`].
pub enum ParseChoiceView {
    WatchList { feed: Seq<char> },
    Single { url: Option<Seq<char>>, title: Seq<char>, option: Seq<char> },
    OptionRequired,
    ItemRequired,
}

/// What the parse command is to do.
#[derive(Debug, Clone, PartialEq, Eq)]
pub enum ParseChoice {
    /// Hold this feed against the stored watch-list.
    WatchList { feed: String },
    /// Hold a feed against a single entry made of `title` and `option`: the
    /// feed at `url`, or the configured one where `url` is `None`.
    Single { url: Option<String>, title: String, option: String },
    /// A title was given without an option.
    OptionRequired,
    /// No title was given.
    ItemRequired,
}

impl View for ParseChoice {
    type V = ParseChoiceView;

    open spec fn view(&self) -> ParseChoiceView {
        match self {
            ParseChoice::WatchList { feed } => ParseChoiceView::WatchList { feed: feed@ },
            ParseChoice::Single { url, title, option } => ParseChoiceView::Single {
                url: url.deep_view(),
                title: title@,
                option: option@,
            },
            ParseChoice::OptionRequired => ParseChoiceView::OptionRequired,
            ParseChoice::ItemRequired => ParseChoiceView::ItemRequired,
        }
    }
}

/// What the parse command does with a feed, a title and an option, each of
/// which may be missing. A feed alone is held against the stored
/// watch-list. In every other case a title and an option are both needed,
/// and the title is asked for first.
pub open spec fn parse_for(
    feed: Option<Seq<char>>,
    item: Option<Seq<char>>,
    vid_opt: Option<Seq<char>>,
) -> ParseChoiceView {
    if feed is Some && item is None && vid_opt is None {
        ParseChoiceView::WatchList { feed: feed.unwrap() }
    } else {
        match item {
            Some(title) => match vid_opt {
                Some(option) => ParseChoiceView::Single { url: feed, title, option },
                None => ParseChoiceView::OptionRequired,
            },
            None => ParseChoiceView::ItemRequired,
        }
    }
}

/// Decides what the parse command is to do.
pub fn parse_choice(feed: Option<String>, item: Option<String>, vid_opt: Option<String>) -> (choice:
    ParseChoice)
    ensures
        choice@ == parse_for(feed.deep_view(), item.deep_view(), vid_opt.deep_view()),
{
    match (feed, item, vid_opt) {
        (Some(feed), None, None) => ParseChoice::WatchList { feed },
        (url, Some(title), Some(option)) => ParseChoice::Single { url, title, option },
        (_, Some(_), None) => ParseChoice::OptionRequired,
        (_, None, _) => ParseChoice::ItemRequired,
    }
}

/// What the watch-list command is to do.
#[derive(Debug, Clone, Copy, PartialEq, Eq, Structural)]
pub enum EditorChoice {
    Add,
    Edit,
    Delete,
    Print,
    Interface,
}

/// What the four flags of the watch-list command ask for. The first flag
/// that is set, in the order add, edit, delete, print, decides, unless all
/// four are set or none is: then the interface opens.
pub open spec fn editor_for(add: bool, delete: bool, edit: bool, print: bool) -> EditorChoice {
    if add && (!delete || !edit || !print) {
        EditorChoice::Add
    } else if edit && (!add || !delete || !print) {
        EditorChoice::Edit
    } else if delete && (!add || !edit || !print) {
        EditorChoice::Delete
    } else if print && (!add || !edit || !delete) {
        EditorChoice::Print
    } else {
        EditorChoice::Interface
    }
}

/// Decides what the watch-list command is to do.
pub fn editor_choice(add: bool, delete: bool, edit: bool, print: bool) -> (choice: EditorChoice)
    ensures
        choice == editor_for(add, delete, edit, print),
        choice == EditorChoice::Interface <==> (add && delete && edit && print) || !(add || delete
            || edit || print),
{
    if add && (!delete || !edit || !print) {
        EditorChoice::Add
    } else if edit && (!add || !delete || !print) {
        EditorChoice::Edit
    } else if delete && (!add || !edit || !print) {
        EditorChoice::Delete
    } else if print && (!add || !edit || !delete) {
        EditorChoice::Print
    } else {
        EditorChoice::Interface
    }
}

/// The title and the option of an entry to write, where both were given.
pub fn item_builder(val: Option<String>, opt: Option<String>) -> (pair: Option<(String, String)>)
    ensures
        pair is Some <==> val is Some && opt is Some,
        pair is Some ==> pair.unwrap().0 == val.unwrap() && pair.unwrap().1 == opt.unwrap(),
{
    match (val, opt) {
        (Some(title), Some(option)) => Some((title, option)),
        _ => None,
    }
}

/// The mathematical content of a [`SettingsChoice`].
pub enum SettingsChoiceView {
    Store { key: Seq<char>, value: Seq<char> },
    Show { keys: Seq<Seq<char>> },
    Interface,
}

/// What the settings command is to do.
#[derive(Debug, Clone, PartialEq, Eq)]
pub enum SettingsChoice {
    /// Store `value` under `key`.
    Store { key: String, value: String },
    /// Show the settings stored under these keys, in this order.
    Show { keys: Vec<String> },
    /// Open the settings editor.
    Interface,
}

impl View for SettingsChoice {
    type V = SettingsChoiceView;

    open spec fn view(&self) -> SettingsChoiceView {
        match self {
            SettingsChoice::Store { key, value } => SettingsChoiceView::Store {
                key: key@,
                value: value@,
            },
            SettingsChoice::Show { keys } => SettingsChoiceView::Show { keys: keys.deep_view() },
            SettingsChoice::Interface => SettingsChoiceView::Interface,
        }
    }
}

/// The keys to show: each key whose flag is set, in the order download
/// directory, archive directory, feed, log; and after them all four once
/// more where everything is to be printed.
pub open spec fn keys_to_show(dl: bool, ar: bool, url: bool, log: bool, print: bool) -> Seq<
    Seq<char>,
> {
    (if dl {
        seq!["dl-dir"@]
    } else {
        Seq::empty()
    }) + (if ar {
        seq!["ar-dir"@]
    } else {
        Seq::empty()
    }) + (if url {
        seq!["url"@]
    } else {
        Seq::empty()
    }) + (if log {
        seq!["log"@]
    } else {
        Seq::empty()
    }) + (if print {
        seq!["dl-dir"@, "ar-dir"@, "url"@, "log"@]
    } else {
        Seq::empty()
    })
}

/// What the settings command does. A value to store goes first, and of
/// several only one is stored: the download directory before the archive
/// directory, that before the feed, that before the log. Without a value,
/// the settings asked for are shown; without any flag the editor opens.
pub open spec fn settings_for(
    dl_dir: Option<Seq<char>>,
    ar_dir: Option<Seq<char>>,
    url: Option<Seq<char>>,
    log: Option<Seq<char>>,
    get_dl: bool,
    get_ar: bool,
    get_url: bool,
    get_log: bool,
    print: bool,
) -> SettingsChoiceView {
    if dl_dir is Some {
        SettingsChoiceView::Store { key: "dl-dir"@, value: dl_dir.unwrap() }
    } else if ar_dir is Some {
        SettingsChoiceView::Store { key: "ar-dir"@, value: ar_dir.unwrap() }
    } else if url is Some {
        SettingsChoiceView::Store { key: "url"@, value: url.unwrap() }
    } else if log is Some {
        SettingsChoiceView::Store { key: "log"@, value: log.unwrap() }
    } else if get_dl || get_ar || get_url || get_log || print {
        SettingsChoiceView::Show { keys: keys_to_show(get_dl, get_ar, get_url, get_log, print) }
    } else {
        SettingsChoiceView::Interface
    }
}

fn get_set(dl: bool, ar: bool, url: bool, log: bool, print: bool) -> (keys: Vec<String>)
    ensures
        keys.deep_view() == keys_to_show(dl, ar, url, log, print),
{
    let mut keys: Vec<String> = Vec::new();
    assert(keys.deep_view() =~= Seq::<Seq<char>>::empty());
    if dl {
        keys.push("dl-dir".to_owned());
    }
    assert(keys.deep_view() =~= keys_to_show(dl, false, false, false, false));
    if ar {
        keys.push("ar-dir".to_owned());
    }
    assert(keys.deep_view() =~= keys_to_show(dl, ar, false, false, false));
    if url {
        keys.push("url".to_owned());
    }
    assert(keys.deep_view() =~= keys_to_show(dl, ar, url, false, false));
    if log {
        keys.push("log".to_owned());
    }
    assert(keys.deep_view() =~= keys_to_show(dl, ar, url, log, false));
    if print {
        keys.push("dl-dir".to_owned());
        keys.push("ar-dir".to_owned());
        keys.push("url".to_owned());
        keys.push("log".to_owned());
    }
    assert(keys.deep_view() =~= keys_to_show(dl, ar, url, log, print));
    keys
}

/// Decides what the settings command is to do.
pub fn settings_choice(
    dl_dir: Option<String>,
    ar_dir: Option<String>,
    url: Option<String>,
    log: Option<String>,
    get_dl: bool,
    get_ar: bool,
    get_url: bool,
    get_log: bool,
    print: bool,
) -> (choice: SettingsChoice)
    ensures
        choice@ == settings_for(
            dl_dir.deep_view(),
            ar_dir.deep_view(),
            url.deep_view(),
            log.deep_view(),
            get_dl,
            get_ar,
            get_url,
            get_log,
            print,
        ),
{
    if let Some(value) = dl_dir {
        SettingsChoice::Store { key: "dl-dir".to_owned(), value }
    } else if let Some(value) = ar_dir {
        SettingsChoice::Store { key: "ar-dir".to_owned(), value }
    } else if let Some(value) = url {
        SettingsChoice::Store { key: "url".to_owned(), value }
    } else if let Some(value) = log {
        SettingsChoice::Store { key: "log".to_owned(), value }
    } else if get_dl || get_ar || get_url || get_log || print {
        SettingsChoice::Show { keys: get_set(get_dl, get_ar, get_url, get_log, print) }
    } else {
        SettingsChoice::Interface
    }
}

} // verus!
