use vstd::prelude::*;
use vstd::string::*;
use crate::engine::{Transfer, TransferView};

verus! {

/// The name a file gets where the remote address gives none.
pub open spec fn fallback_name() -> Seq<char> {
    "tmp.bin"@
}

/// The file name that the path segments of a resolved address give: the
/// last segment, unless there is none or it is empty.
pub open spec fn file_name(segments: Option<Seq<Seq<char>>>) -> Seq<char> {
    match segments {
        Some(parts) => if parts.len() > 0 && parts.last().len() > 0 {
            parts.last()
        } else {
            fallback_name()
        },
        None => fallback_name(),
    }
}

/// The place of the file `name` under the directory `dir`.
pub open spec fn path_in(dir: Seq<char>, name: Seq<char>) -> Seq<char> {
    dir + seq!['/'] + name
}

/// Where a transfer ended.
#[derive(Debug, Clone, Copy, PartialEq, Eq, Structural)]
pub enum Outcome {
    /// The item had no link: there was nothing to do.
    NoLink,
    /// The magnet reference was handed to the system's opener.
    Opened,
    /// The archive already held the file: nothing was transferred.
    AlreadyArchived,
    /// The file was written to the download directory and to the archive.
    Downloaded,
    /// A request or a write failed, or an answer came that was not asked for.
    Failed,
}

/// What an outcome adds to the number of downloads.
pub open spec fn count_of(outcome: Outcome) -> nat {
    if outcome == Outcome::Downloaded || outcome == Outcome::Opened {
        1
    } else {
        0
    }
}

impl Outcome {
    /// What this outcome adds to the number of downloads: 1 for a file that
    /// was downloaded or a magnet reference that was opened, 0 for anything
    /// else.
    pub fn count(&self) -> (n: u8)
        ensures
            n == count_of(*self),
    {
        match self {
            Outcome::Downloaded | Outcome::Opened => 1,
            _ => 0,
        }
    }
}

/// How far a transfer has come.
#[derive(Debug, Clone, Copy, PartialEq, Eq, Structural)]
pub enum Stage {
    /// Nothing was asked for yet.
    Idle,
    /// The magnet reference is with the opener.
    Opening,
    /// The two directories are being looked up and made.
    Preparing,
    /// The address is being resolved to learn the name to look for in the
    /// archive.
    ProbeName,
    /// The archive is being asked whether it holds the file.
    ProbePresence,
    /// The address is being resolved for the copy in the download directory.
    DownloadName,
    /// The copy in the download directory is being written.
    DownloadWrite,
    /// The address is being resolved for the copy in the archive.
    ArchiveName,
    /// The copy in the archive is being written.
    ArchiveWrite,
    /// The transfer is over.
    Done(Outcome),
    /// A directory could not be made: the run cannot go on.
    Aborted,
}

/// The mathematical content of a [`Fetch`].
pub struct FetchView {
    pub stage: Stage,
    pub download_dir: Seq<char>,
    pub archive_dir: Seq<char>,
}

/// The state of a transfer: its stage and, once they are known, the two
/// directories that are to hold a copy each.
#[derive(Debug, Clone, PartialEq, Eq)]
pub struct Fetch {
    pub stage: Stage,
    pub download_dir: String,
    pub archive_dir: String,
}

impl View for Fetch {
    type V = FetchView;

    open spec fn view(&self) -> FetchView {
        FetchView {
            stage: self.stage,
            download_dir: self.download_dir@,
            archive_dir: self.archive_dir@,
        }
    }
}

/// The mathematical content of an [`Event`].
pub enum EventView {
    Begin,
    Opened,
    Prepared { download_dir: Seq<char>, archive_dir: Seq<char> },
    Resolved { segments: Option<Seq<Seq<char>>> },
    Present(bool),
    Written,
    Failed,
}

/// What the outside world answers to a request.
#[derive(Debug, Clone, PartialEq, Eq)]
pub enum Event {
    /// The transfer is to start.
    Begin,
    /// The opener took the magnet reference.
    Opened,
    /// Both directories exist; these are their paths. Where one of them
    /// cannot be made, the answer to the request is `Failed`.
    Prepared { download_dir: String, archive_dir: String },
    /// The address answered; these are the path segments of the address that
    /// it resolved to, where that address has a path.
    Resolved { segments: Option<Vec<String>> },
    /// Whether the file that was asked about exists.
    Present(bool),
    /// The body of the answer was written to the path asked for.
    Written,
    /// The request could not be carried out.
    Failed,
}

impl View for Event {
    type V = EventView;

    open spec fn view(&self) -> EventView {
        match self {
            Event::Begin => EventView::Begin,
            Event::Opened => EventView::Opened,
            Event::Prepared { download_dir, archive_dir } => EventView::Prepared {
                download_dir: download_dir@,
                archive_dir: archive_dir@,
            },
            Event::Resolved { segments } => EventView::Resolved {
                segments: segments.deep_view(),
            },
            Event::Present(present) => EventView::Present(*present),
            Event::Written => EventView::Written,
            Event::Failed => EventView::Failed,
        }
    }
}

/// The mathematical content of a [`Request`].
pub enum RequestView {
    Open { target: Seq<char> },
    Prepare,
    Resolve { target: Seq<char> },
    Probe { path: Seq<char> },
    Write { path: Seq<char> },
    Finish { outcome: Outcome },
    Abort,
}

/// What the transfer asks of the outside world next.
#[derive(Debug, Clone, PartialEq, Eq)]
pub enum Request {
    /// Hand the magnet reference to the system's opener.
    Open { target: String },
    /// Look up the download directory and the archive directory, and make
    /// each where it does not exist.
    Prepare,
    /// Send a request to the address and hold the answer.
    Resolve { target: String },
    /// Say whether a file exists at the path.
    Probe { path: String },
    /// Write the body of the answer that is held to the path.
    Write { path: String },
    /// Nothing more: the transfer ended with this outcome.
    Finish { outcome: Outcome },
    /// End the run: a directory that it needs could not be made. This is no
    /// outcome of the transfer, and nothing is counted for it.
    Abort,
}

impl View for Request {
    type V = RequestView;

    open spec fn view(&self) -> RequestView {
        match self {
            Request::Open { target } => RequestView::Open { target: target@ },
            Request::Prepare => RequestView::Prepare,
            Request::Resolve { target } => RequestView::Resolve { target: target@ },
            Request::Probe { path } => RequestView::Probe { path: path@ },
            Request::Write { path } => RequestView::Write { path: path@ },
            Request::Finish { outcome } => RequestView::Finish { outcome: *outcome },
            Request::Abort => RequestView::Abort,
        }
    }
}

/// The address of a transfer; empty where it has none.
pub open spec fn target_of(transfer: TransferView) -> Seq<char> {
    match transfer {
        TransferView::Missing => Seq::empty(),
        TransferView::Magnet(target) => target,
        TransferView::Http(target) => target,
    }
}

/// The state moved on to `stage`.
pub open spec fn moved(state: FetchView, stage: Stage) -> FetchView {
    FetchView { stage, download_dir: state.download_dir, archive_dir: state.archive_dir }
}

/// The transfer ended with `outcome`.
pub open spec fn ended(state: FetchView, outcome: Outcome) -> (FetchView, RequestView) {
    (moved(state, Stage::Done(outcome)), RequestView::Finish { outcome })
}

/// The state that follows `state` on `event`, and what is asked for next.
///
/// An item without a link ends at once. A magnet reference goes to the
/// opener and counts where the opener takes it; nothing is probed or
/// fetched for it. For any other link the two directories are prepared and
/// the archive is probed, under the name that the address resolves to. A
/// file that is there ends the transfer without a download. Otherwise the
/// address is fetched twice, once for each directory, and only two writes
/// that succeed make a download. A directory that cannot be made ends the
/// run, not the transfer: the request is to abort, and it stays that. Any
/// other failure, and any answer that the stage did not ask for, ends the
/// transfer as failed.
pub open spec fn advance(transfer: TransferView, state: FetchView, event: EventView) -> (
    FetchView,
    RequestView,
) {
    match (state.stage, event) {
        (Stage::Idle, EventView::Begin) => match transfer {
            TransferView::Missing => ended(state, Outcome::NoLink),
            TransferView::Magnet(target) => (
                moved(state, Stage::Opening),
                RequestView::Open { target },
            ),
            TransferView::Http(target) => (moved(state, Stage::Preparing), RequestView::Prepare),
        },
        (Stage::Opening, EventView::Opened) => ended(state, Outcome::Opened),
        (Stage::Preparing, EventView::Prepared { download_dir, archive_dir }) => (
            FetchView { stage: Stage::ProbeName, download_dir, archive_dir },
            RequestView::Resolve { target: target_of(transfer) },
        ),
        (Stage::Preparing, EventView::Failed) => (moved(state, Stage::Aborted), RequestView::Abort),
        (Stage::Aborted, _) => (moved(state, Stage::Aborted), RequestView::Abort),
        (Stage::ProbeName, EventView::Resolved { segments }) => (
            moved(state, Stage::ProbePresence),
            RequestView::Probe { path: path_in(state.archive_dir, file_name(segments)) },
        ),
        (Stage::ProbePresence, EventView::Present(present)) => if present {
            ended(state, Outcome::AlreadyArchived)
        } else {
            (
                moved(state, Stage::DownloadName),
                RequestView::Resolve { target: target_of(transfer) },
            )
        },
        (Stage::DownloadName, EventView::Resolved { segments }) => (
            moved(state, Stage::DownloadWrite),
            RequestView::Write { path: path_in(state.download_dir, file_name(segments)) },
        ),
        (Stage::DownloadWrite, EventView::Written) => (
            moved(state, Stage::ArchiveName),
            RequestView::Resolve { target: target_of(transfer) },
        ),
        (Stage::ArchiveName, EventView::Resolved { segments }) => (
            moved(state, Stage::ArchiveWrite),
            RequestView::Write { path: path_in(state.archive_dir, file_name(segments)) },
        ),
        (Stage::ArchiveWrite, EventView::Written) => ended(state, Outcome::Downloaded),
        (Stage::Done(outcome), _) => ended(state, outcome),
        _ => ended(state, Outcome::Failed),
    }
}

/// The place under `dir` of the file that the path segments name.
pub fn target_path(dir: &str, segments: &Option<Vec<String>>) -> (path: String)
    ensures
        path@ == path_in(dir@, file_name(segments.deep_view())),
{
    let mut path = dir.to_owned();
    path.append("/");
    proof {
        reveal_strlit("/");
        assert(path@ =~= dir@ + seq!['/']);
    }
    match segments {
        Some(parts) => {
            assert(segments.deep_view() == Some(parts.deep_view()));
            if parts.len() > 0 && !parts[parts.len() - 1].as_str().is_empty() {
                assert(parts.deep_view().last() == parts[parts.len() - 1]@);
                path.append(parts[parts.len() - 1].as_str());
            } else {
                path.append("tmp.bin");
            }
        },
        None => {
            path.append("tmp.bin");
        },
    }
    path
}

fn target(transfer: &Transfer) -> (address: String)
    ensures
        address@ == target_of(transfer@),
{
    match transfer {
        Transfer::Missing => String::new(),
        Transfer::Magnet(target) => target.clone(),
        Transfer::Http(target) => target.clone(),
    }
}

fn step_to(state: Fetch, stage: Stage) -> (next: Fetch)
    ensures
        next@ == moved(state@, stage),
{
    Fetch { stage, download_dir: state.download_dir, archive_dir: state.archive_dir }
}

fn end_with(state: Fetch, outcome: Outcome) -> (next: (Fetch, Request))
    ensures
        (next.0@, next.1@) == ended(state@, outcome),
{
    (step_to(state, Stage::Done(outcome)), Request::Finish { outcome })
}

impl Fetch {
    /// A transfer of which nothing was asked yet.
    pub fn new() -> (state: Fetch)
        ensures
            state@ == (FetchView {
                stage: Stage::Idle,
                download_dir: Seq::empty(),
                archive_dir: Seq::empty(),
            }),
    {
        Fetch { stage: Stage::Idle, download_dir: String::new(), archive_dir: String::new() }
    }
}

/// Takes a transfer one step on: from the state it is in and the answer
/// that came, to the state that follows and the next request.
pub fn downloader(transfer: &Transfer, state: Fetch, event: Event) -> (next: (Fetch, Request))
    ensures
        (next.0@, next.1@) == advance(transfer@, state@, event@),
{
    match (state.stage, event) {
        (Stage::Idle, Event::Begin) => match transfer {
            Transfer::Missing => end_with(state, Outcome::NoLink),
            Transfer::Magnet(target) => (
                step_to(state, Stage::Opening),
                Request::Open { target: target.clone() },
            ),
            Transfer::Http(_) => (step_to(state, Stage::Preparing), Request::Prepare),
        },
        (Stage::Opening, Event::Opened) => end_with(state, Outcome::Opened),
        (Stage::Preparing, Event::Prepared { download_dir, archive_dir }) => (
            Fetch { stage: Stage::ProbeName, download_dir, archive_dir },
            Request::Resolve { target: target(transfer) },
        ),
        (Stage::Preparing, Event::Failed) => (step_to(state, Stage::Aborted), Request::Abort),
        (Stage::Aborted, _) => (step_to(state, Stage::Aborted), Request::Abort),
        (Stage::ProbeName, Event::Resolved { segments }) => {
            let path = target_path(state.archive_dir.as_str(), &segments);
            (step_to(state, Stage::ProbePresence), Request::Probe { path })
        },
        (Stage::ProbePresence, Event::Present(present)) => if present {
            end_with(state, Outcome::AlreadyArchived)
        } else {
            (step_to(state, Stage::DownloadName), Request::Resolve { target: target(transfer) })
        },
        (Stage::DownloadName, Event::Resolved { segments }) => {
            let path = target_path(state.download_dir.as_str(), &segments);
            (step_to(state, Stage::DownloadWrite), Request::Write { path })
        },
        (Stage::DownloadWrite, Event::Written) => (
            step_to(state, Stage::ArchiveName),
            Request::Resolve { target: target(transfer) },
        ),
        (Stage::ArchiveName, Event::Resolved { segments }) => {
            let path = target_path(state.archive_dir.as_str(), &segments);
            (step_to(state, Stage::ArchiveWrite), Request::Write { path })
        },
        (Stage::ArchiveWrite, Event::Written) => end_with(state, Outcome::Downloaded),
        (Stage::Done(outcome), _) => end_with(state, outcome),
        _ => end_with(state, Outcome::Failed),
    }
}

/// The state that a transfer is in, and all it has asked for, after a
/// sequence of answers.
pub struct Trace {
    pub state: FetchView,
    pub requests: Seq<RequestView>,
}

/// The state of a transfer of which nothing was asked yet.
pub open spec fn idle() -> FetchView {
    FetchView { stage: Stage::Idle, download_dir: Seq::empty(), archive_dir: Seq::empty() }
}

/// A transfer taken from its start through `events`, one step for each.
pub open spec fn replay(transfer: TransferView, events: Seq<EventView>) -> Trace
    decreases events.len(),
{
    if events.len() == 0 {
        Trace { state: idle(), requests: Seq::empty() }
    } else {
        let before = replay(transfer, events.drop_last());
        let (state, request) = advance(transfer, before.state, events.last());
        Trace { state, requests: before.requests.push(request) }
    }
}

/// The first `n` answers are those of a fetch on its way to a download: the
/// start, the directories, the name for the probe, a file that is not in
/// the archive, then twice a name and a write that succeeded.
pub open spec fn on_course(events: Seq<EventView>, n: int) -> bool {
    &&& n <= events.len()
    &&& n > 0 ==> events[0] is Begin
    &&& n > 1 ==> events[1] is Prepared
    &&& n > 2 ==> events[2] is Resolved
    &&& n > 3 ==> events[3] == EventView::Present(false)
    &&& n > 4 ==> events[4] is Resolved
    &&& n > 5 ==> events[5] is Written
    &&& n > 6 ==> events[6] is Resolved
    &&& n > 7 ==> events[7] is Written
}

/// The answers begin with a directory that could not be made.
pub open spec fn unprepared(events: Seq<EventView>) -> bool {
    &&& events.len() >= 2
    &&& events[0] is Begin
    &&& events[1] is Failed
}

/// The answers begin with a probe that found the file in the archive.
pub open spec fn found_in_archive(events: Seq<EventView>) -> bool {
    &&& events.len() >= 4
    &&& events[0] is Begin
    &&& events[1] is Prepared
    &&& events[2] is Resolved
    &&& events[3] == EventView::Present(true)
}

/// No request of the sequence writes a file.
pub open spec fn writes_nothing(requests: Seq<RequestView>) -> bool {
    forall|i: int| 0 <= i < requests.len() ==> !(#[trigger] requests[i] is Write)
}

/// Every request of the sequence is for the opener, or says that the
/// transfer is over.
pub open spec fn only_opens(requests: Seq<RequestView>) -> bool {
    forall|i: int|
        0 <= i < requests.len() ==> (#[trigger] requests[i]) is Open || requests[i] is Finish
}

/// The stage of a fetch that is still under way after `n` answers.
pub open spec fn stage_on_course(n: int) -> Stage {
    if n <= 0 {
        Stage::Idle
    } else if n == 1 {
        Stage::Preparing
    } else if n == 2 {
        Stage::ProbeName
    } else if n == 3 {
        Stage::ProbePresence
    } else if n == 4 {
        Stage::DownloadName
    } else if n == 5 {
        Stage::DownloadWrite
    } else if n == 6 {
        Stage::ArchiveName
    } else if n == 7 {
        Stage::ArchiveWrite
    } else {
        Stage::Done(Outcome::Downloaded)
    }
}

/// The stage of a fetch says which answers it has had: one that is under
/// way has had exactly the answers that lead to its stage, one that ended
/// in a download has had all eight of them, and one that ended on a file
/// found in the archive has had that answer fourth and has written nothing.
pub proof fn lemma_stage_tells_course(target: Seq<char>, events: Seq<EventView>)
    ensures
        ({
            let trace = replay(TransferView::Http(target), events);
            let n = events.len() as int;
            &&& trace.requests.len() == n
            &&& trace.state.stage == Stage::Aborted <==> unprepared(events)
            &&& unprepared(events) ==> trace.requests.last() == RequestView::Abort
            &&& !(trace.state.stage is Done) && trace.state.stage != Stage::Aborted ==> on_course(
                events,
                n,
            ) && n <= 7
            &&& on_course(events, n) && n <= 7 ==> trace.state.stage == stage_on_course(n)
            &&& trace.state.stage == Stage::Done(Outcome::Downloaded) <==> on_course(events, 8)
            &&& trace.state.stage == Stage::Done(Outcome::AlreadyArchived) <==> found_in_archive(
                events,
            )
            &&& on_course(events, n) && n <= 4 ==> writes_nothing(trace.requests)
            &&& found_in_archive(events) ==> writes_nothing(trace.requests)
            &&& trace.state.stage != Stage::Done(Outcome::Opened)
            &&& trace.state.stage != Stage::Opening
        }),
    decreases events.len(),
{
    let transfer = TransferView::Http(target);
    if events.len() > 0 {
        let earlier = events.drop_last();
        lemma_stage_tells_course(target, earlier);
        let before = replay(transfer, earlier);
        let after = replay(transfer, events);
        let n = events.len() as int;
        assert forall|i: int| 0 <= i < earlier.len() implies earlier[i] == events[i] by {}
        assert(on_course(earlier, 8) ==> on_course(events, 8));
        assert(found_in_archive(earlier) ==> found_in_archive(events));
        assert(unprepared(earlier) ==> unprepared(events));
        if unprepared(events) && n > 2 {
            assert(unprepared(earlier));
        }
        if unprepared(events) && n == 2 {
            assert(on_course(earlier, 1));
        }
        if on_course(events, 8) && n > 8 {
            assert(on_course(earlier, 8));
        }
        if found_in_archive(events) && n > 4 {
            assert(found_in_archive(earlier));
        }
        if on_course(events, n) {
            assert(on_course(earlier, n - 1));
        }
        if (on_course(events, n) && n <= 4) || found_in_archive(events) {
            assert(writes_nothing(before.requests)) by {
                if found_in_archive(events) && n == 4 {
                    assert(on_course(earlier, 3));
                }
            }
            assert forall|i: int| 0 <= i < after.requests.len() implies !(
            #[trigger] after.requests[i] is Write) by {
                if i < before.requests.len() {
                    assert(after.requests[i] == before.requests[i]);
                } else {
                    assert(after.requests[i] == advance(transfer, before.state, events.last()).1);
                }
            }
        }
    }
}

/// A file that the archive already holds ends the fetch without a
/// download: whatever is answered afterwards, the outcome adds nothing to
/// the number of downloads, and no file was ever asked to be written.
pub proof fn lemma_archived_file_is_not_fetched(target: Seq<char>, events: Seq<EventView>)
    requires
        found_in_archive(events),
    ensures
        replay(TransferView::Http(target), events).state.stage == Stage::Done(
            Outcome::AlreadyArchived,
        ),
        count_of(Outcome::AlreadyArchived) == 0,
        writes_nothing(replay(TransferView::Http(target), events).requests),
{
    lemma_stage_tells_course(target, events);
}

/// A directory that cannot be made ends the run: the transfer asks to
/// abort and goes on asking that whatever is answered. It never ends with
/// an outcome, so nothing is ever counted for it, not even a 0.
pub proof fn lemma_failed_preparation_is_fatal(target: Seq<char>, events: Seq<EventView>)
    requires
        unprepared(events),
    ensures
        replay(TransferView::Http(target), events).state.stage == Stage::Aborted,
        !(replay(TransferView::Http(target), events).state.stage is Done),
        replay(TransferView::Http(target), events).requests.last() == RequestView::Abort,
{
    lemma_stage_tells_course(target, events);
}

/// A fetch counts as a download exactly when both writes succeeded, each
/// after its own request to the address, and the archive did not hold the
/// file before.
pub proof fn lemma_download_needs_both_writes(target: Seq<char>, events: Seq<EventView>)
    ensures
        replay(TransferView::Http(target), events).state.stage == Stage::Done(Outcome::Downloaded)
            <==> on_course(events, 8),
{
    lemma_stage_tells_course(target, events);
}

/// A magnet reference is only ever handed to the opener: nothing is
/// prepared, probed, resolved or written for it, and it counts exactly when
/// the opener took it.
pub proof fn lemma_magnet_is_only_opened(target: Seq<char>, events: Seq<EventView>)
    ensures
        ({
            let trace = replay(TransferView::Magnet(target), events);
            &&& only_opens(trace.requests)
            &&& trace.state.stage is Done || trace.state.stage == Stage::Opening
                || trace.state.stage == Stage::Idle
            &&& trace.state.stage == Stage::Idle <==> events.len() == 0
            &&& trace.state.stage == Stage::Opening <==> events.len() == 1 && events[0] is Begin
            &&& trace.state.stage == Stage::Done(Outcome::Opened) <==> events.len() >= 2
                && events[0] is Begin && events[1] is Opened
            &&& trace.state.stage is Done ==> trace.state.stage == Stage::Done(Outcome::Opened)
                || trace.state.stage == Stage::Done(Outcome::Failed)
            &&& trace.state.stage != Stage::Aborted
        }),
    decreases events.len(),
{
    let transfer = TransferView::Magnet(target);
    if events.len() > 0 {
        let earlier = events.drop_last();
        lemma_magnet_is_only_opened(target, earlier);
        let before = replay(transfer, earlier);
        let after = replay(transfer, events);
        assert forall|i: int| 0 <= i < earlier.len() implies earlier[i] == events[i] by {}
        assert forall|i: int| 0 <= i < after.requests.len() implies (
        #[trigger] after.requests[i]) is Open || after.requests[i] is Finish by {
            if i < before.requests.len() {
                assert(after.requests[i] == before.requests[i]);
            } else {
                assert(after.requests[i] == advance(transfer, before.state, events.last()).1);
            }
        }
    }
}

} // verus!
