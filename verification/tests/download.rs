use nyaadle::download::{downloader, target_path, Event, Fetch, Outcome, Request, Stage};
use nyaadle::engine::Transfer;

const ADDRESS: &str = "https://example.org/get/file.torrent";
const DOWNLOADS: &str = "/home/u/Transmission/torrent-ingest";
const ARCHIVE: &str = "/home/u/Transmission/torrent-ingest/archive";

fn file() -> Transfer {
    Transfer::Http(ADDRESS.to_string())
}

fn prepared() -> Event {
    Event::Prepared { download_dir: DOWNLOADS.to_string(), archive_dir: ARCHIVE.to_string() }
}

fn resolved(parts: &[&str]) -> Event {
    Event::Resolved { segments: Some(parts.iter().map(|p| p.to_string()).collect()) }
}

fn resolve() -> Request {
    Request::Resolve { target: ADDRESS.to_string() }
}

fn at(stage: Stage) -> Fetch {
    Fetch { stage, download_dir: DOWNLOADS.to_string(), archive_dir: ARCHIVE.to_string() }
}

fn drive(transfer: &Transfer, events: Vec<Event>) -> (Stage, Vec<Request>) {
    let mut state = Fetch::new();
    let mut asked = Vec::new();
    for event in events {
        let (next, request) = downloader(transfer, state, event);
        state = next;
        asked.push(request);
    }
    (state.stage, asked)
}

#[test]
fn path_is_directory_slash_last_segment() {
    let segments = Some(vec!["get".to_string(), "file.torrent".to_string()]);
    assert_eq!(target_path("/data/archive", &segments), "/data/archive/file.torrent");
}

#[test]
fn path_falls_back_to_the_fixed_name() {
    assert_eq!(target_path("/data", &None), "/data/tmp.bin");
    assert_eq!(target_path("/data", &Some(Vec::new())), "/data/tmp.bin");
    let trailing_slash = Some(vec!["get".to_string(), "".to_string()]);
    assert_eq!(target_path("/data", &trailing_slash), "/data/tmp.bin");
    assert_eq!(target_path("", &Some(vec!["a".to_string()])), "/a");
}

#[test]
fn new_transfer_is_idle() {
    assert_eq!(
        Fetch::new(),
        Fetch { stage: Stage::Idle, download_dir: String::new(), archive_dir: String::new() }
    );
}

#[test]
fn full_download_takes_eight_answers() {
    let (stage, asked) = drive(
        &file(),
        vec![
            Event::Begin,
            prepared(),
            resolved(&["get", "file.torrent"]),
            Event::Present(false),
            resolved(&["get", "file.torrent"]),
            Event::Written,
            resolved(&["get", "file.torrent"]),
            Event::Written,
        ],
    );
    assert_eq!(stage, Stage::Done(Outcome::Downloaded));
    assert_eq!(
        asked,
        vec![
            Request::Prepare,
            resolve(),
            Request::Probe {
                path: "/home/u/Transmission/torrent-ingest/archive/file.torrent".to_string(),
            },
            resolve(),
            Request::Write { path: "/home/u/Transmission/torrent-ingest/file.torrent".to_string() },
            resolve(),
            Request::Write {
                path: "/home/u/Transmission/torrent-ingest/archive/file.torrent".to_string(),
            },
            Request::Finish { outcome: Outcome::Downloaded },
        ]
    );
    assert_eq!(Outcome::Downloaded.count(), 1);
}

#[test]
fn archived_file_is_not_fetched() {
    let (stage, asked) = drive(
        &file(),
        vec![Event::Begin, prepared(), resolved(&["get", "file.torrent"]), Event::Present(true)],
    );
    assert_eq!(stage, Stage::Done(Outcome::AlreadyArchived));
    assert_eq!(asked.len(), 4);
    assert_eq!(asked[3], Request::Finish { outcome: Outcome::AlreadyArchived });
    assert!(asked.iter().all(|request| !matches!(request, Request::Write { .. })));
    assert_eq!(Outcome::AlreadyArchived.count(), 0);
}

#[test]
fn each_copy_is_named_by_its_own_answer() {
    let (stage, asked) = drive(
        &file(),
        vec![
            Event::Begin,
            prepared(),
            resolved(&["a.torrent"]),
            Event::Present(false),
            resolved(&["b.torrent"]),
            Event::Written,
            Event::Resolved { segments: None },
        ],
    );
    assert_eq!(stage, Stage::ArchiveWrite);
    assert_eq!(
        asked[2],
        Request::Probe { path: "/home/u/Transmission/torrent-ingest/archive/a.torrent".to_string() }
    );
    assert_eq!(
        asked[4],
        Request::Write { path: "/home/u/Transmission/torrent-ingest/b.torrent".to_string() }
    );
    assert_eq!(
        asked[6],
        Request::Write { path: "/home/u/Transmission/torrent-ingest/archive/tmp.bin".to_string() }
    );
}

#[test]
fn failed_probe_counts_nothing() {
    let (stage, asked) = drive(&file(), vec![Event::Begin, prepared(), Event::Failed]);
    assert_eq!(stage, Stage::Done(Outcome::Failed));
    assert_eq!(asked[2], Request::Finish { outcome: Outcome::Failed });
    assert_eq!(Outcome::Failed.count(), 0);
}

#[test]
fn one_write_alone_is_no_download() {
    let (stage, _) = drive(
        &file(),
        vec![
            Event::Begin,
            prepared(),
            resolved(&["f"]),
            Event::Present(false),
            resolved(&["f"]),
            Event::Written,
            resolved(&["f"]),
            Event::Failed,
        ],
    );
    assert_eq!(stage, Stage::Done(Outcome::Failed));
    let (stage, _) = drive(
        &file(),
        vec![
            Event::Begin,
            prepared(),
            resolved(&["f"]),
            Event::Present(false),
            resolved(&["f"]),
            Event::Failed,
        ],
    );
    assert_eq!(stage, Stage::Done(Outcome::Failed));
}

#[test]
fn magnet_goes_to_the_opener_and_nowhere_else() {
    let magnet = Transfer::Magnet("magnet:?xt=urn:btih:abc".to_string());
    let (stage, asked) = drive(&magnet, vec![Event::Begin, Event::Opened]);
    assert_eq!(stage, Stage::Done(Outcome::Opened));
    assert_eq!(
        asked,
        vec![
            Request::Open { target: "magnet:?xt=urn:btih:abc".to_string() },
            Request::Finish { outcome: Outcome::Opened },
        ]
    );
    assert_eq!(Outcome::Opened.count(), 1);
    let (stage, _) = drive(&magnet, vec![Event::Begin, Event::Failed]);
    assert_eq!(stage, Stage::Done(Outcome::Failed));
}

#[test]
fn item_without_link_ends_at_once() {
    let (stage, asked) = drive(&Transfer::Missing, vec![Event::Begin]);
    assert_eq!(stage, Stage::Done(Outcome::NoLink));
    assert_eq!(asked, vec![Request::Finish { outcome: Outcome::NoLink }]);
    assert_eq!(Outcome::NoLink.count(), 0);
}

#[test]
fn answer_that_was_not_asked_for_fails_the_transfer() {
    assert_eq!(
        downloader(&file(), at(Stage::Idle), Event::Written).0.stage,
        Stage::Done(Outcome::Failed)
    );
    assert_eq!(
        downloader(&file(), at(Stage::ProbeName), Event::Present(true)).0.stage,
        Stage::Done(Outcome::Failed)
    );
    assert_eq!(
        downloader(&file(), at(Stage::DownloadWrite), Event::Begin).0.stage,
        Stage::Done(Outcome::Failed)
    );
    assert_eq!(
        downloader(&file(), at(Stage::Preparing), Event::Opened).0.stage,
        Stage::Done(Outcome::Failed)
    );
}

#[test]
fn finished_transfer_stays_finished() {
    let (state, request) = downloader(&file(), at(Stage::Done(Outcome::Downloaded)), Event::Failed);
    assert_eq!(state, at(Stage::Done(Outcome::Downloaded)));
    assert_eq!(request, Request::Finish { outcome: Outcome::Downloaded });
    let (state, _) =
        downloader(&file(), at(Stage::Done(Outcome::AlreadyArchived)), Event::Written);
    assert_eq!(state.stage, Stage::Done(Outcome::AlreadyArchived));
}

#[test]
fn directory_that_cannot_be_made_ends_the_run() {
    let (stage, asked) = drive(&file(), vec![Event::Begin, Event::Failed]);
    assert_eq!(stage, Stage::Aborted);
    assert_eq!(asked, vec![Request::Prepare, Request::Abort]);
    let (stage, asked) =
        drive(&file(), vec![Event::Begin, Event::Failed, prepared(), Event::Written]);
    assert_eq!(stage, Stage::Aborted);
    assert_eq!(asked[2], Request::Abort);
    assert_eq!(asked[3], Request::Abort);
}
