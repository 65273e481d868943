//! The dispatcher: one inbound message in, one thing to do out.
//!
//! A handler never reads a file and never writes to a connection. Where a
//! request needs the content of files, the outcome names them; the caller
//! reads them and hands the bytes to [`file_manifest`] or to
//! [`crate::transfer::file_frames`].

use vstd::prelude::*;
use crate::client_id::{fresh_client_id, is_hyphenated_uuid};
use crate::clock::now_millis;
use crate::content::{collect_wanted_ids, find_first_path, first_path, palette_refs, resolve_paths,
    resolved, rnbo_refs, sheet_refs, wanted_ids, ContentKind, ContentRef, ContentRefView};
use crate::digest::{file_hash, file_hash_of};
use crate::performance_types::{id_map, knows_id, PerformanceState, PerformanceStateView, Seats};
use crate::protocol::{decoded_view, request_of_message, ManifestEntry, ManifestEntryView,
    ProtocolError, Reply, ReplyView, Request, RequestView};
use crate::state::{AppState, AppStateView, PaletteItemView};
use crate::text::{index_of_text, parse_index};

verus! {

/// The files that a seat needs, by kind: what the caller has to read before
/// the manifest can be made.
#[derive(Debug)]
pub struct ManifestRequest {
    pub patch_files: Vec<ContentRef>,
    pub sheet_files: Vec<ContentRef>,
}

pub struct ManifestRequestView {
    pub patch_files: Seq<ContentRefView>,
    pub sheet_files: Seq<ContentRefView>,
}

impl View for ManifestRequest {
    type V = ManifestRequestView;

    open spec fn view(&self) -> ManifestRequestView {
        ManifestRequestView {
            patch_files: self.patch_files.deep_view(),
            sheet_files: self.sheet_files.deep_view(),
        }
    }
}

/// The file that a client asked for: what the caller has to read and send in
/// frames.
#[derive(Debug)]
pub struct TransferRequest {
    pub id: String,
    pub kind: ContentKind,
    pub path: String,
}

pub struct TransferRequestView {
    pub id: Seq<char>,
    pub kind: ContentKind,
    pub path: Seq<char>,
}

impl View for TransferRequest {
    type V = TransferRequestView;

    open spec fn view(&self) -> TransferRequestView {
        TransferRequestView { id: self.id@, kind: self.kind, path: self.path@ }
    }
}

/// What is to be done about a message.
#[derive(Debug)]
pub enum Outcome {
    /// Send the reply on the connection that the message came on.
    Reply(Reply),
    /// Read the named files, then send what [`file_manifest`] makes of them.
    Manifest(ManifestRequest),
    /// Read the named file, then send its frames.
    Transfer(TransferRequest),
}

pub enum OutcomeView {
    Reply(ReplyView),
    Manifest(ManifestRequestView),
    Transfer(TransferRequestView),
}

impl View for Outcome {
    type V = OutcomeView;

    open spec fn view(&self) -> OutcomeView {
        match self {
            Outcome::Reply(reply) => OutcomeView::Reply(reply@),
            Outcome::Manifest(request) => OutcomeView::Manifest(request@),
            Outcome::Transfer(request) => OutcomeView::Transfer(request@),
        }
    }
}

/// The reply that refuses a request.
pub open spec fn refusal(error: ProtocolError) -> OutcomeView {
    OutcomeView::Reply(ReplyView::Error(error))
}

/// The index of the seat that a ready request under the client identifier
/// `id` speaks for, or why the request is refused.
pub open spec fn ready_seat(seats: Seats, id: Seq<char>) -> Result<usize, ProtocolError> {
    if id.len() == 0 {
        Err(ProtocolError::ReadyMissingId)
    } else if !knows_id(seats, id) {
        Err(ProtocolError::ClientInvalid)
    } else {
        match index_of_text(id_map(seats)[id]) {
            None => Err(ProtocolError::SeatNotNumeric),
            Some(seat) => Ok(seat),
        }
    }
}

/// The files that the seat with the index `seat` needs: the content of both
/// kinds that any phase gives the seat and that the palettes hold.
pub open spec fn manifest_outcome(app: AppStateView, seat: usize) -> OutcomeView {
    OutcomeView::Manifest(
        ManifestRequestView {
            patch_files: resolved(
                wanted_ids(app.phases, seat as int, ContentKind::Patch),
                palette_refs(app.rnbo_patches),
            ),
            sheet_files: resolved(
                wanted_ids(app.phases, seat as int, ContentKind::Sheet),
                palette_refs(app.sheet_music),
            ),
        },
    )
}

/// What a ready request under the client identifier `id` leads to: the files
/// that the client's seat needs, or a refusal.
pub open spec fn ready_outcome(app: AppStateView, seats: Seats, id: Seq<char>) -> OutcomeView {
    match ready_seat(seats, id) {
        Err(error) => refusal(error),
        Ok(seat) => manifest_outcome(app, seat),
    }
}

/// The palette that holds content of the kind `kind`.
pub open spec fn palette_of(app: AppStateView, kind: ContentKind) -> Seq<PaletteItemView> {
    match kind {
        ContentKind::Patch => app.rnbo_patches,
        ContentKind::Sheet => app.sheet_music,
    }
}

/// What a file request leads to.
pub open spec fn file_request_outcome(
    app: AppStateView,
    id: Option<Seq<char>>,
    file_type: Option<Seq<char>>,
) -> OutcomeView {
    match (id, file_type) {
        (None, _) => refusal(ProtocolError::MissingFileId),
        (Some(_), None) => refusal(ProtocolError::MissingFileType),
        (Some(id), Some(name)) => match ContentKind::of_name(name) {
            None => refusal(ProtocolError::UnknownFileType),
            Some(kind) => match first_path(palette_refs(palette_of(app, kind)), id) {
                None => refusal(ProtocolError::FileNotFound),
                Some(path) => OutcomeView::Transfer(TransferRequestView { id, kind, path }),
            },
        },
    }
}

/// What may come of a join of `seat` on the connection `sender`: the step
/// that the registry takes for some client identifier of the right shape and
/// some instant.
pub open spec fn join_handled(
    before: PerformanceStateView,
    seat: Seq<char>,
    sender: u64,
    after: PerformanceStateView,
    reply: ReplyView,
) -> bool {
    exists|id: Seq<char>, now_ms: u64|
        is_hyphenated_uuid(id) && #[trigger] before.join(seat, id, now_ms, sender) == (after, reply)
}

/// What may come of a time request: the client's reading, echoed, beside a
/// reading of the server's clock.
pub open spec fn time_handled(client_time: i64, reply: ReplyView) -> bool {
    reply matches ReplyView::TimeResult { client_time: echoed, server_time } && echoed
        == client_time && server_time >= 0
}

/// What is still to be looked up in the design state before a request can
/// be answered.
#[derive(Debug)]
pub enum Lookup {
    /// The files that the seat with the index `seat` needs.
    Ready { seat: usize },
    /// The file that a client asks for.
    File { id: Option<String>, file_type: Option<String> },
}

pub enum LookupView {
    Ready { seat: usize },
    File { id: Option<Seq<char>>, file_type: Option<Seq<char>> },
}

impl View for Lookup {
    type V = LookupView;

    open spec fn view(&self) -> LookupView {
        match self {
            Lookup::Ready { seat } => LookupView::Ready { seat: *seat },
            Lookup::File { id, file_type } => LookupView::File {
                id: id.deep_view(),
                file_type: file_type.deep_view(),
            },
        }
    }
}

/// How far the registry alone takes a request: to its outcome, or to a
/// look into the design state.
#[derive(Debug)]
pub enum Step {
    Done(Outcome),
    Lookup(Lookup),
}

pub enum StepView {
    Done(OutcomeView),
    Lookup(LookupView),
}

impl View for Step {
    type V = StepView;

    open spec fn view(&self) -> StepView {
        match self {
            Step::Done(outcome) => StepView::Done(outcome@),
            Step::Lookup(lookup) => StepView::Lookup(lookup@),
        }
    }
}

/// How far the registry takes a ready request under the identifier `id`.
pub open spec fn ready_step(seats: Seats, id: Seq<char>) -> StepView {
    match ready_seat(seats, id) {
        Err(error) => StepView::Done(refusal(error)),
        Ok(seat) => StepView::Lookup(LookupView::Ready { seat }),
    }
}

/// What may come of the first step of a request, the one that needs the
/// registry and not the design state: the registry afterwards and how far
/// the request got.
pub open spec fn begun(
    request: Result<RequestView, ProtocolError>,
    before: PerformanceStateView,
    sender: u64,
    after: PerformanceStateView,
    step: StepView,
) -> bool {
    match request {
        Err(error) => after == before && step == StepView::Done(refusal(error)),
        Ok(RequestView::Ping) => after == before && step == StepView::Done(
            OutcomeView::Reply(ReplyView::Pong),
        ),
        Ok(RequestView::Join { seat }) => step matches StepView::Done(OutcomeView::Reply(reply))
            && join_handled(before, seat, sender, after, reply),
        Ok(RequestView::Rejoin { id }) => step matches StepView::Done(OutcomeView::Reply(reply)) && (
        after, reply) == before.rejoin(id, sender),
        Ok(RequestView::TimeRequest { client_time }) => after == before && (
        step matches StepView::Done(OutcomeView::Reply(reply)) && time_handled(client_time, reply)),
        Ok(RequestView::Ready { id }) => after == before && step == ready_step(before.seats, id),
        Ok(RequestView::FileRequest { id, file_type }) => after == before && step
            == StepView::Lookup(LookupView::File { id, file_type }),
    }
}

/// The outcome of a request after its second step, the one that needs the
/// design state and not the registry.
pub open spec fn finished(step: StepView, app: AppStateView) -> OutcomeView {
    match step {
        StepView::Done(outcome) => outcome,
        StepView::Lookup(LookupView::Ready { seat }) => manifest_outcome(app, seat),
        StepView::Lookup(LookupView::File { id, file_type }) => file_request_outcome(
            app,
            id,
            file_type,
        ),
    }
}

/// The two steps together handle the request.
pub proof fn lemma_steps_handle(
    request: Result<RequestView, ProtocolError>,
    before: PerformanceStateView,
    app: AppStateView,
    sender: u64,
    after: PerformanceStateView,
    step: StepView,
)
    requires
        begun(request, before, sender, after, step),
    ensures
        request_handled(request, before, app, sender, after, finished(step, app)),
{
}

/// What may come of a request, or of the refusal to read one: the registry
/// afterwards and the outcome.
pub open spec fn request_handled(
    request: Result<RequestView, ProtocolError>,
    before: PerformanceStateView,
    app: AppStateView,
    sender: u64,
    after: PerformanceStateView,
    outcome: OutcomeView,
) -> bool {
    match request {
        Err(error) => after == before && outcome == refusal(error),
        Ok(RequestView::Ping) => after == before && outcome == OutcomeView::Reply(ReplyView::Pong),
        Ok(RequestView::Join { seat }) => outcome matches OutcomeView::Reply(reply) && join_handled(
            before,
            seat,
            sender,
            after,
            reply,
        ),
        Ok(RequestView::Rejoin { id }) => outcome matches OutcomeView::Reply(reply) && (after, reply)
            == before.rejoin(id, sender),
        Ok(RequestView::TimeRequest { client_time }) => after == before && (
        outcome matches OutcomeView::Reply(reply) && time_handled(client_time, reply)),
        Ok(RequestView::Ready { id }) => after == before && outcome == ready_outcome(
            app,
            before.seats,
            id,
        ),
        Ok(RequestView::FileRequest { id, file_type }) => after == before && outcome
            == file_request_outcome(app, id, file_type),
    }
}

/// What may come of a message: what may come of the request it holds.
pub open spec fn handled(
    msg: Seq<char>,
    before: PerformanceStateView,
    app: AppStateView,
    sender: u64,
    after: PerformanceStateView,
    outcome: OutcomeView,
) -> bool {
    request_handled(request_of_message(msg), before, app, sender, after, outcome)
}

/// Answers one message from the connection `sender`.
pub fn handle_message(
    msg: &str,
    perf_state: &mut PerformanceState,
    app_state: &AppState,
    sender: u64,
) -> (outcome: Outcome)
    ensures
        handled(msg@, old(perf_state)@, app_state@, sender, final(perf_state)@, outcome@),
{
    handle_request(Request::decode(msg), perf_state, app_state, sender)
}

/// Answers what was read of one message from the connection `sender`: a
/// request, or the reason why none could be read. Only a join and a rejoin
/// touch the registry.
pub fn handle_request(
    decoded: Result<Request, ProtocolError>,
    perf_state: &mut PerformanceState,
    app_state: &AppState,
    sender: u64,
) -> (outcome: Outcome)
    ensures
        request_handled(
            decoded_view(decoded),
            old(perf_state)@,
            app_state@,
            sender,
            final(perf_state)@,
            outcome@,
        ),
{
    let step = begin_request(decoded, perf_state, sender);
    proof {
        lemma_steps_handle(
            decoded_view(decoded),
            old(perf_state)@,
            app_state@,
            sender,
            perf_state@,
            step@,
        );
    }
    finish_request(step, app_state)
}

/// Takes a request as far as the registry alone can: every request but a
/// ready request with a good seat and a file request is answered here. The
/// design state is not looked at, so that the caller need not hold it while
/// it holds the registry.
pub fn begin_request(
    decoded: Result<Request, ProtocolError>,
    perf_state: &mut PerformanceState,
    sender: u64,
) -> (step: Step)
    ensures
        begun(decoded_view(decoded), old(perf_state)@, sender, final(perf_state)@, step@),
{
    match decoded {
        Err(error) => Step::Done(Outcome::Reply(Reply::Error(error))),
        Ok(Request::Ping) => Step::Done(Outcome::Reply(Reply::Pong)),
        Ok(Request::Join { seat }) => Step::Done(
            Outcome::Reply(handle_join(seat.as_str(), perf_state, sender)),
        ),
        Ok(Request::Rejoin { id }) => Step::Done(
            Outcome::Reply(handle_rejoin(id.as_str(), perf_state, sender)),
        ),
        Ok(Request::TimeRequest { client_time }) => Step::Done(
            Outcome::Reply(handle_time_request(client_time)),
        ),
        Ok(Request::Ready { id }) => match seat_of_ready(id.as_str(), perf_state) {
            Ok(seat) => Step::Lookup(Lookup::Ready { seat }),
            Err(error) => Step::Done(Outcome::Reply(Reply::Error(error))),
        },
        Ok(Request::FileRequest { id, file_type }) => Step::Lookup(Lookup::File { id, file_type }),
    }
}

/// Takes a request to its outcome by what the design state holds. The
/// registry is not looked at.
pub fn finish_request(step: Step, app_state: &AppState) -> (outcome: Outcome)
    ensures
        outcome@ == finished(step@, app_state@),
{
    match step {
        Step::Done(outcome) => outcome,
        Step::Lookup(Lookup::Ready { seat }) => files_of_seat(app_state, seat),
        Step::Lookup(Lookup::File { id, file_type }) => handle_file_request(
            &id,
            &file_type,
            app_state,
        ),
    }
}

/// Answers a time request with the client's reading and the server's clock.
pub fn handle_time_request(client_time: i64) -> (reply: Reply)
    ensures
        time_handled(client_time, reply@),
{
    let server_time = now_millis();
    Reply::TimeResult { client_time, server_time }
}

/// Some text of the shape of a client identifier.
proof fn lemma_some_identifier() -> (id: Seq<char>)
    ensures
        is_hyphenated_uuid(id),
{
    let id = Seq::new(
        36,
        |i: int|
            if i == 8 || i == 13 || i == 18 || i == 23 {
                '-'
            } else {
                '0'
            },
    );
    id
}

/// Claims `seat` for the client on the connection `sender`, under a client
/// identifier drawn at random and with an expiry counted from now. A join
/// that names no seat, or a seat that is taken, is refused before anything
/// is drawn.
pub fn handle_join(seat: &str, state: &mut PerformanceState, sender: u64) -> (reply: Reply)
    ensures
        join_handled(old(state)@, seat@, sender, final(state)@, reply@),
{
    if seat.is_empty() {
        proof {
            let id = lemma_some_identifier();
            assert(old(state)@.join(seat@, id, 0, sender) == (
                state@,
                ReplyView::Error(ProtocolError::InvalidSeat),
            ));
        }
        return Reply::Error(ProtocolError::InvalidSeat);
    }
    if state.client_of(seat).is_some() {
        proof {
            let id = lemma_some_identifier();
            assert(old(state)@.join(seat@, id, 0, sender) == (
                state@,
                ReplyView::Error(ProtocolError::SeatTaken),
            ));
        }
        return Reply::Error(ProtocolError::SeatTaken);
    }
    let client_id = fresh_client_id();
    let now = now_millis();
    let ghost id = client_id@;
    let reply = state.join(seat, client_id, now as u64, sender);
    assert(old(state)@.join(seat@, id, now as u64, sender) == (state@, reply@));
    reply
}

/// Moves the seat bound to `client_id` to the connection `sender`.
pub fn handle_rejoin(client_id: &str, state: &mut PerformanceState, sender: u64) -> (reply: Reply)
    ensures
        (final(state)@, reply@) == old(state)@.rejoin(client_id@, sender),
{
    state.rejoin(client_id, sender)
}

/// Finds the seat that a ready request of the client `client_id` speaks
/// for, by its index.
pub fn seat_of_ready(client_id: &str, perf_state: &PerformanceState) -> (seat: Result<
    usize,
    ProtocolError,
>)
    ensures
        seat == ready_seat(perf_state@.seats, client_id@),
{
    if client_id.is_empty() {
        return Err(ProtocolError::ReadyMissingId);
    }
    let seat = match perf_state.seat_of(client_id) {
        Some(seat) => seat,
        None => {
            return Err(ProtocolError::ClientInvalid);
        },
    };
    match parse_index(seat) {
        Some(index) => Ok(index),
        None => Err(ProtocolError::SeatNotNumeric),
    }
}

/// Finds the files that the seat with the index `seat` needs: what any
/// phase gives it, as far as the palettes hold it.
pub fn files_of_seat(app_state: &AppState, seat: usize) -> (outcome: Outcome)
    ensures
        outcome@ == manifest_outcome(app_state@, seat),
{
    let rnbo_ids = collect_wanted_ids(&app_state.phases, seat, ContentKind::Patch);
    let sheet_ids = collect_wanted_ids(&app_state.phases, seat, ContentKind::Sheet);
    let rnbo_lookup = rnbo_refs(&app_state.rnbo_patches);
    let sheet_lookup = sheet_refs(&app_state.sheet_music);
    let patch_files = resolve_paths(&rnbo_ids, &rnbo_lookup);
    let sheet_files = resolve_paths(&sheet_ids, &sheet_lookup);
    Outcome::Manifest(ManifestRequest { patch_files, sheet_files })
}

/// Finds the files that the seat of the client `client_id` needs.
pub fn handle_ready(app_state: &AppState, client_id: &str, perf_state: &PerformanceState) -> (outcome:
    Outcome)
    ensures
        outcome@ == ready_outcome(app_state@, perf_state@.seats, client_id@),
{
    match seat_of_ready(client_id, perf_state) {
        Ok(seat) => files_of_seat(app_state, seat),
        Err(error) => Outcome::Reply(Reply::Error(error)),
    }
}

/// What was read of each file of a list: its bytes, or nothing where the
/// file could not be read.
pub open spec fn contents_view(contents: Seq<Option<Vec<u8>>>) -> Seq<Option<Seq<u8>>> {
    Seq::new(
        contents.len(),
        |i: int|
            match contents[i] {
                Some(bytes) => Some(bytes@),
                None => None,
            },
    )
}

/// The manifest entries for a list of files: one for each file that was
/// read, with the hash of what was read. A file that could not be read, and
/// one for which nothing was handed in, has no entry.
pub open spec fn hashed(files: Seq<ContentRefView>, contents: Seq<Option<Seq<u8>>>) -> Seq<
    ManifestEntryView,
>
    decreases files.len(),
{
    if files.len() == 0 {
        Seq::empty()
    } else {
        let earlier = hashed(files.drop_last(), contents);
        let last = files.len() - 1;
        if last < contents.len() && contents[last] is Some {
            earlier.push(
                ManifestEntryView { name: files.last().id, hash: file_hash_of(contents[last]->0) },
            )
        } else {
            earlier
        }
    }
}

fn hash_files(files: &Vec<ContentRef>, contents: &Vec<Option<Vec<u8>>>) -> (entries: Vec<
    ManifestEntry,
>)
    ensures
        entries.deep_view() == hashed(files.deep_view(), contents_view(contents@)),
{
    let ghost all = files.deep_view();
    let ghost read = contents_view(contents@);
    let mut entries: Vec<ManifestEntry> = Vec::new();
    let mut i: usize = 0;
    assert(all.take(0) =~= Seq::empty());
    assert(entries.deep_view() =~= Seq::empty());
    while i < files.len()
        invariant
            i <= files@.len(),
            all == files.deep_view(),
            read == contents_view(contents@),
            entries.deep_view() == hashed(all.take(i as int), read),
        decreases files@.len() - i,
    {
        proof {
            assert(all.take(i + 1).drop_last() =~= all.take(i as int));
            assert(all.take(i + 1).last() == files@[i as int]@);
        }
        if i < contents.len() {
            match &contents[i] {
                Some(bytes) => {
                    let ghost before = entries.deep_view();
                    let entry = ManifestEntry {
                        name: files[i].id.clone(),
                        hash: file_hash(bytes.as_slice()),
                    };
                    entries.push(entry);
                    assert(entries.deep_view() =~= before.push(entry@));
                },
                None => {},
            }
        }
        i += 1;
    }
    assert(all.take(files@.len() as int) =~= all);
    entries
}

/// Makes the manifest for a ready request out of what was read of its
/// files. `patch_contents` and `sheet_contents` hold, at the place of each
/// file of `request`, the bytes of that file or `None` where it could not be
/// read.
pub fn file_manifest(
    request: &ManifestRequest,
    patch_contents: &Vec<Option<Vec<u8>>>,
    sheet_contents: &Vec<Option<Vec<u8>>>,
) -> (reply: Reply)
    ensures
        reply@ == (ReplyView::FileManifest {
            patch_files: hashed(request@.patch_files, contents_view(patch_contents@)),
            sheet_files: hashed(request@.sheet_files, contents_view(sheet_contents@)),
        }),
{
    Reply::FileManifest {
        patch_files: hash_files(&request.patch_files, patch_contents),
        sheet_files: hash_files(&request.sheet_files, sheet_contents),
    }
}

/// Finds the file that a client asks for.
pub fn handle_file_request(
    file_id: &Option<String>,
    file_type: &Option<String>,
    app_state: &AppState,
) -> (outcome: Outcome)
    ensures
        outcome@ == file_request_outcome(app_state@, file_id.deep_view(), file_type.deep_view()),
{
    let file_id = match file_id {
        Some(id) => id,
        None => {
            return Outcome::Reply(Reply::Error(ProtocolError::MissingFileId));
        },
    };
    let file_type = match file_type {
        Some(name) => name,
        None => {
            return Outcome::Reply(Reply::Error(ProtocolError::MissingFileType));
        },
    };
    let kind = match ContentKind::from_name(file_type.as_str()) {
        Some(kind) => kind,
        None => {
            return Outcome::Reply(Reply::Error(ProtocolError::UnknownFileType));
        },
    };
    let lookup = match kind {
        ContentKind::Patch => rnbo_refs(&app_state.rnbo_patches),
        ContentKind::Sheet => sheet_refs(&app_state.sheet_music),
    };
    match find_first_path(&lookup, file_id.as_str()) {
        Some(path) => Outcome::Transfer(
            TransferRequest { id: file_id.clone(), kind, path: path.to_owned() },
        ),
        None => Outcome::Reply(Reply::Error(ProtocolError::FileNotFound)),
    }
}

/// The connections that a message for all clients goes to: that of every
/// claimed seat.
pub fn broadcast_to_all(state: &PerformanceState) -> (targets: Vec<u64>)
    ensures
        targets@ == state@.senders(),
{
    state.senders()
}

} // verus!
