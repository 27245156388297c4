use vstd::prelude::*;
use vstd::string::*;
use crate::text::str_eq;
use crate::watchlist::{WatchEntry, Watchlist};

verus! {

/// The key under which the download directory is stored.
pub open spec fn download_key() -> Seq<char> {
    "dl-dir"@
}

/// The key under which the archive directory is stored.
pub open spec fn archive_key() -> Seq<char> {
    "ar-dir"@
}

/// The key under which the address of the feed is stored.
pub open spec fn url_key() -> Seq<char> {
    "url"@
}

/// The key under which the path of the log file is stored.
pub open spec fn log_key() -> Seq<char> {
    "log"@
}

/// The feed that is read where none is configured.
pub open spec fn default_url() -> Seq<char> {
    "https://nyaa.si/?page=rss"@
}

/// The four settings, each with the key under which it is stored.
#[derive(Debug, Clone, PartialEq, Eq)]
pub struct Settings {
    pub dl_key: String,
    pub dl_val: String,
    pub ar_key: String,
    pub ar_val: String,
    pub url_key: String,
    pub url_val: String,
    pub log_key: String,
    pub log_val: String,
}

impl Settings {
    /// The settings that a fresh store starts with: the directories and the
    /// log path given, and the default feed.
    pub fn default(dl_dir: String, ar_dir: String, log_path: String) -> (settings: Settings)
        ensures
            settings.dl_key@ == download_key(),
            settings.dl_val == dl_dir,
            settings.ar_key@ == archive_key(),
            settings.ar_val == ar_dir,
            settings.url_key@ == url_key(),
            settings.url_val@ == default_url(),
            settings.log_key@ == log_key(),
            settings.log_val == log_path,
    {
        Settings {
            dl_key: "dl-dir".to_owned(),
            dl_val: dl_dir,
            ar_key: "ar-dir".to_owned(),
            ar_val: ar_dir,
            url_key: "url".to_owned(),
            url_val: "https://nyaa.si/?page=rss".to_owned(),
            log_key: "log".to_owned(),
            log_val: log_path,
        }
    }
}

/// A stored value, or the fallback where nothing is stored: an empty value
/// stands for a setting that was never made.
pub open spec fn or_default(stored: Seq<char>, fallback: Seq<char>) -> Seq<char> {
    if stored.len() == 0 {
        fallback
    } else {
        stored
    }
}

/// The address of the feed to read, given what is stored for it.
pub fn get_url(stored: &str) -> (url: String)
    ensures
        url@ == or_default(stored@, default_url()),
{
    if stored.is_empty() {
        "https://nyaa.si/?page=rss".to_owned()
    } else {
        stored.to_owned()
    }
}

/// The path of the log file, given what is stored for it and the path that
/// is used where nothing is stored.
pub fn get_log(stored: &str, fallback: &str) -> (path: String)
    ensures
        path@ == or_default(stored@, fallback@),
{
    if stored.is_empty() {
        fallback.to_owned()
    } else {
        stored.to_owned()
    }
}

/// What is said after the setting `key` was given the value `value`.
pub open spec fn set_notice(key: Seq<char>, value: Seq<char>) -> Seq<char> {
    if key == download_key() {
        "Updated Download directory to \""@ + value + "\""@
    } else if key == archive_key() {
        "Updated Archive directory to \""@ + value + "\""@
    } else if key == url_key() {
        "Updated RSS Feed URL to \""@ + value + "\""@
    } else if key == log_key() {
        "Updated log file location to \""@ + value + "\""@
    } else {
        "Unknown key value."@
    }
}

/// What is said when the setting `key` is shown and holds `value`.
pub open spec fn get_notice(key: Seq<char>, value: Seq<char>) -> Seq<char> {
    if key == download_key() {
        "Download Directory: "@ + value
    } else if key == archive_key() {
        "Archive Directory: "@ + value
    } else if key == url_key() {
        "RSS Feed URL: "@ + value
    } else if key == log_key() {
        "Log File Path: "@ + value
    } else {
        "Setting not found."@
    }
}

fn quoted(lead: &str, value: &str) -> (line: String)
    ensures
        line@ == lead@ + value@ + "\""@,
{
    let mut line = lead.to_owned();
    line.append(value);
    line.append("\"");
    line
}

fn labelled(lead: &str, value: &str) -> (line: String)
    ensures
        line@ == lead@ + value@,
{
    let mut line = lead.to_owned();
    line.append(value);
    line
}

/// The line that confirms a change of the setting `key` to `value`.
pub fn arg_set(key: &str, value: &str) -> (line: String)
    ensures
        line@ == set_notice(key@, value@),
{
    if str_eq(key, "dl-dir") {
        quoted("Updated Download directory to \"", value)
    } else if str_eq(key, "ar-dir") {
        quoted("Updated Archive directory to \"", value)
    } else if str_eq(key, "url") {
        quoted("Updated RSS Feed URL to \"", value)
    } else if str_eq(key, "log") {
        quoted("Updated log file location to \"", value)
    } else {
        "Unknown key value.".to_owned()
    }
}

/// The line that shows the setting `key` with the value it holds.
pub fn arg_get_set(key: &str, value: &str) -> (line: String)
    ensures
        line@ == get_notice(key@, value@),
{
    if str_eq(key, "dl-dir") {
        labelled("Download Directory: ", value)
    } else if str_eq(key, "ar-dir") {
        labelled("Archive Directory: ", value)
    } else if str_eq(key, "url") {
        labelled("RSS Feed URL: ", value)
    } else if str_eq(key, "log") {
        labelled("Log File Path: ", value)
    } else {
        "Setting not found.".to_owned()
    }
}

/// The entry that a stored row stands for.
pub open spec fn entry_of(row: (i32, Seq<char>, Seq<char>)) -> WatchEntry {
    WatchEntry { id: row.0 as int, title: row.1, option: row.2 }
}

/// Makes the watch-list of the rows of the store, in their order.
pub fn read_watch_list(rows: &Vec<(i32, String, String)>) -> (list: Vec<Watchlist>)
    ensures
        list.deep_view() == rows.deep_view().map_values(
            |row: (i32, Seq<char>, Seq<char>)| entry_of(row),
        ),
{
    let mut list: Vec<Watchlist> = Vec::new();
    let mut i: usize = 0;
    while i < rows.len()
        invariant
            i <= rows.len(),
            list.len() == i,
            forall|a: int| 0 <= a < i ==> (#[trigger] list[a])@ == entry_of(rows[a].deep_view()),
        decreases rows.len() - i,
    {
        let row = &rows[i];
        list.push(Watchlist::new().build(row.0, row.1.clone(), row.2.clone()));
        i = i + 1;
    }
    assert(list.deep_view() =~= rows.deep_view().map_values(
        |row: (i32, Seq<char>, Seq<char>)| entry_of(row),
    ));
    list
}

} // verus!
