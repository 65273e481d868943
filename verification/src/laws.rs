//! What holds of the protocol as a whole, proved from the contracts of its
//! parts.

use vstd::prelude::*;
use crate::content::{assigned, last_path, palette_refs, resolved, wanted_ids, ContentKind,
    ContentRefView};
use crate::digest::file_hash_of;
use crate::cue::lemma_cue_names_full_seats;
use crate::handlers::{handled, hashed, palette_of, ready_outcome, refusal, request_handled,
    OutcomeView};
use crate::json::MemberView;
use crate::performance_types::{connections, consistent, expiry, id_map, knows_id,
    lemma_place_unique, place_of_id, seat_map, PerformanceStateView, Seats};
use crate::protocol::{request_of_members, request_of_message, ManifestEntryView, ProtocolError,
    ReplyView, RequestView};
use crate::server_commands::phase_cue_of;
use crate::state::{AppStateView, PhaseView};
use crate::text::index_of_text;
use crate::text_map::{has_key, lemma_position_unique, value_of};

verus! {

/// A seat is claimed once. After a join that was granted, a second join for
/// the same seat is refused as taken, whatever identifier is drawn for it,
/// and leaves the registry as the first join made it: the seat is still
/// bound to the first client's identifier.
pub proof fn lemma_seat_is_claimed_once(
    registry: PerformanceStateView,
    seat: Seq<char>,
    first_id: Seq<char>,
    first_now: u64,
    first_sender: u64,
    second_id: Seq<char>,
    second_now: u64,
    second_sender: u64,
)
    requires
        consistent(registry.seats),
        registry.join(seat, first_id, first_now, first_sender).1 is Joined,
    ensures
        ({
            let claimed = registry.join(seat, first_id, first_now, first_sender).0;
            &&& claimed.join(seat, second_id, second_now, second_sender) == (
                claimed,
                ReplyView::Error(ProtocolError::SeatTaken),
            )
            &&& has_key(claimed.seats, seat)
            &&& seat_map(claimed.seats)[seat].id == first_id
        }),
{
    let claimed = registry.join(seat, first_id, first_now, first_sender).0;
    let place = registry.seats.len() as int;
    assert(claimed.seats[place].0 == seat);
    lemma_join_keeps_consistent(registry, seat, first_id, first_now, first_sender);
    lemma_position_unique(claimed.seats, place);
}

/// A join leaves the registry consistent.
pub proof fn lemma_join_keeps_consistent(
    registry: PerformanceStateView,
    seat: Seq<char>,
    id: Seq<char>,
    now_ms: u64,
    sender: u64,
)
    requires
        consistent(registry.seats),
    ensures
        consistent(registry.join(seat, id, now_ms, sender).0.seats),
{
    let before = registry.seats;
    let after = registry.join(seat, id, now_ms, sender).0.seats;
    if registry.join(seat, id, now_ms, sender).1 is Joined {
        assert forall|i: int, j: int| 0 <= i < j < after.len() implies (#[trigger] after[i]).0
            != (#[trigger] after[j]).0 && after[i].1.id != after[j].1.id by {
            assert(after[i] == before[i]);
            if j < before.len() {
                assert(after[j] == before[j]);
            }
        }
        assert forall|i: int| 0 <= i < after.len() implies (#[trigger] after[i]).0.len() > 0
            && after[i].1.id.len() > 0 by {
            if i < before.len() {
                assert(after[i] == before[i]);
            }
        }
    }
}

/// A rejoin leaves the registry consistent.
pub proof fn lemma_rejoin_keeps_consistent(registry: PerformanceStateView, id: Seq<char>, sender: u64)
    requires
        consistent(registry.seats),
    ensures
        consistent(registry.rejoin(id, sender).0.seats),
{
    let before = registry.seats;
    let after = registry.rejoin(id, sender).0.seats;
    if registry.rejoin(id, sender).1 is Joined {
        let place = place_of_id(before, id);
        assert(before[place].1.id == id);
        assert forall|i: int, j: int| 0 <= i < j < after.len() implies (#[trigger] after[i]).0
            != (#[trigger] after[j]).0 && after[i].1.id != after[j].1.id by {
            assert(after[i].0 == before[i].0 && after[i].1.id == before[i].1.id);
            assert(after[j].0 == before[j].0 && after[j].1.id == before[j].1.id);
        }
        assert forall|i: int| 0 <= i < after.len() implies (#[trigger] after[i]).0.len() > 0
            && after[i].1.id.len() > 0 by {
            assert(after[i].0 == before[i].0 && after[i].1.id == before[i].1.id);
        }
    }
}

/// A rejoin under an identifier that no seat is bound to is refused and
/// changes nothing.
pub proof fn lemma_unknown_rejoin_is_refused(registry: PerformanceStateView, id: Seq<char>, sender: u64)
    requires
        id.len() > 0,
        !knows_id(registry.seats, id),
    ensures
        registry.rejoin(id, sender) == (
            registry,
            ReplyView::Error(ProtocolError::SessionNotFound),
        ),
{
}

/// A rejoin does not extend a session. Under the identifier that a join
/// gave out, it answers with the seat of that join and with the expiry that
/// the join recorded.
pub proof fn lemma_rejoin_keeps_seat_and_expiry(
    registry: PerformanceStateView,
    seat: Seq<char>,
    id: Seq<char>,
    now_ms: u64,
    sender: u64,
    new_sender: u64,
)
    requires
        consistent(registry.seats),
        registry.join(seat, id, now_ms, sender).1 is Joined,
    ensures
        ({
            let (claimed, joined) = registry.join(seat, id, now_ms, sender);
            claimed.rejoin(id, new_sender).1 == joined
        }),
{
    let claimed = registry.join(seat, id, now_ms, sender).0;
    let place = registry.seats.len() as int;
    assert(claimed.seats[place].1.id == id);
    lemma_join_keeps_consistent(registry, seat, id, now_ms, sender);
    lemma_place_unique(claimed.seats, place);
}

/// Whether the registry holds a session with this seat, this identifier and
/// this expiry.
pub open spec fn holds_session(seats: Seats, seat: Seq<char>, id: Seq<char>, expires_at: u64) -> bool {
    exists|i: int|
        0 <= i < seats.len() && (#[trigger] seats[i]).0 == seat && seats[i].1.id == id
            && seats[i].1.expires_at == expires_at
}

/// No join takes a session away or changes when it ends.
pub proof fn lemma_join_keeps_sessions(
    registry: PerformanceStateView,
    new_seat: Seq<char>,
    new_id: Seq<char>,
    now_ms: u64,
    sender: u64,
    seat: Seq<char>,
    id: Seq<char>,
    expires_at: u64,
)
    requires
        holds_session(registry.seats, seat, id, expires_at),
    ensures
        holds_session(registry.join(new_seat, new_id, now_ms, sender).0.seats, seat, id, expires_at),
{
    let before = registry.seats;
    let after = registry.join(new_seat, new_id, now_ms, sender).0.seats;
    let i = choose|i: int|
        0 <= i < before.len() && (#[trigger] before[i]).0 == seat && before[i].1.id == id
            && before[i].1.expires_at == expires_at;
    assert(after[i] == before[i]);
}

/// No rejoin takes a session away or changes when it ends.
pub proof fn lemma_rejoin_keeps_sessions(
    registry: PerformanceStateView,
    rejoining: Seq<char>,
    sender: u64,
    seat: Seq<char>,
    id: Seq<char>,
    expires_at: u64,
)
    requires
        holds_session(registry.seats, seat, id, expires_at),
    ensures
        holds_session(registry.rejoin(rejoining, sender).0.seats, seat, id, expires_at),
{
    let before = registry.seats;
    let after = registry.rejoin(rejoining, sender).0.seats;
    let i = choose|i: int|
        0 <= i < before.len() && (#[trigger] before[i]).0 == seat && before[i].1.id == id
            && before[i].1.expires_at == expires_at;
    if registry.rejoin(rejoining, sender).1 is Joined {
        let place = place_of_id(before, rejoining);
        assert(before[place].1.id == rejoining);
        if place == i {
            assert(after[i].0 == seat && after[i].1.id == id && after[i].1.expires_at == expires_at);
        } else {
            assert(after[i] == before[i]);
        }
    } else {
        assert(after[i] == before[i]);
    }
}

/// One thing that clients can ask of the registry.
pub enum RegistryStep {
    /// A join of `seat`, for which `id` was drawn at `now_ms`.
    Join { seat: Seq<char>, id: Seq<char>, now_ms: u64, sender: u64 },
    /// A rejoin under `id`.
    Rejoin { id: Seq<char>, sender: u64 },
}

/// The registry after one step.
pub open spec fn after_step(registry: PerformanceStateView, step: RegistryStep) -> PerformanceStateView {
    match step {
        RegistryStep::Join { seat, id, now_ms, sender } => registry.join(seat, id, now_ms, sender).0,
        RegistryStep::Rejoin { id, sender } => registry.rejoin(id, sender).0,
    }
}

/// The registry after a run of steps, taken in order.
pub open spec fn after_steps(registry: PerformanceStateView, steps: Seq<RegistryStep>)
    -> PerformanceStateView
    decreases steps.len(),
{
    if steps.len() == 0 {
        registry
    } else {
        after_step(after_steps(registry, steps.drop_last()), steps.last())
    }
}

/// Whatever clients ask, the registry stays consistent and keeps every
/// session it has, with its seat, its identifier and its expiry.
pub proof fn lemma_steps_keep_sessions(
    registry: PerformanceStateView,
    steps: Seq<RegistryStep>,
    seat: Seq<char>,
    id: Seq<char>,
    expires_at: u64,
)
    requires
        consistent(registry.seats),
        holds_session(registry.seats, seat, id, expires_at),
    ensures
        consistent(after_steps(registry, steps).seats),
        holds_session(after_steps(registry, steps).seats, seat, id, expires_at),
    decreases steps.len(),
{
    if steps.len() > 0 {
        lemma_steps_keep_sessions(registry, steps.drop_last(), seat, id, expires_at);
        let earlier = after_steps(registry, steps.drop_last());
        match steps.last() {
            RegistryStep::Join { seat: new_seat, id: new_id, now_ms, sender } => {
                lemma_join_keeps_consistent(earlier, new_seat, new_id, now_ms, sender);
                lemma_join_keeps_sessions(
                    earlier,
                    new_seat,
                    new_id,
                    now_ms,
                    sender,
                    seat,
                    id,
                    expires_at,
                );
            },
            RegistryStep::Rejoin { id: rejoining, sender } => {
                lemma_rejoin_keeps_consistent(earlier, rejoining, sender);
                lemma_rejoin_keeps_sessions(earlier, rejoining, sender, seat, id, expires_at);
            },
        }
    }
}

/// A session lasts as the join made it. After a join that was granted and
/// whatever clients asked since, a rejoin under the identifier of that join
/// is answered as the join was, with the same seat and the same expiry, and
/// a new join for its seat is refused as taken and changes nothing.
pub proof fn lemma_session_lasts(
    registry: PerformanceStateView,
    seat: Seq<char>,
    id: Seq<char>,
    now_ms: u64,
    sender: u64,
    steps: Seq<RegistryStep>,
    later_id: Seq<char>,
    later_now: u64,
    later_sender: u64,
)
    requires
        consistent(registry.seats),
        registry.join(seat, id, now_ms, sender).1 is Joined,
    ensures
        ({
            let (claimed, joined) = registry.join(seat, id, now_ms, sender);
            let later = after_steps(claimed, steps);
            &&& later.rejoin(id, later_sender).1 == joined
            &&& later.join(seat, later_id, later_now, later_sender) == (
                later,
                ReplyView::Error(ProtocolError::SeatTaken),
            )
            &&& has_key(later.seats, seat)
            &&& seat_map(later.seats)[seat].id == id
        }),
{
    let (claimed, joined) = registry.join(seat, id, now_ms, sender);
    let expires_at = expiry(now_ms, registry.session_ttl_ms);
    lemma_join_keeps_consistent(registry, seat, id, now_ms, sender);
    assert(claimed.seats[registry.seats.len() as int].0 == seat);
    assert(holds_session(claimed.seats, seat, id, expires_at));
    lemma_steps_keep_sessions(claimed, steps, seat, id, expires_at);
    let later = after_steps(claimed, steps);
    let i = choose|i: int|
        0 <= i < later.seats.len() && (#[trigger] later.seats[i]).0 == seat && later.seats[i].1.id
            == id && later.seats[i].1.expires_at == expires_at;
    lemma_place_unique(later.seats, i);
    lemma_position_unique(later.seats, i);
}

/// A seat needs what any phase gives it. What the phase at place `i` of the
/// store gives the seat is among the content wanted for the seat, whatever
/// the other phases give it.
pub proof fn lemma_wanted_covers_every_phase(
    phases: Seq<(Seq<char>, PhaseView)>,
    seat: int,
    kind: ContentKind,
    i: int,
)
    requires
        0 <= i < phases.len(),
        assigned(phases[i].1, seat, kind) is Some,
    ensures
        wanted_ids(phases, seat, kind).contains(assigned(phases[i].1, seat, kind)->0),
    decreases phases.len(),
{
    let id = assigned(phases[i].1, seat, kind)->0;
    let earlier = wanted_ids(phases.drop_last(), seat, kind);
    let all = wanted_ids(phases, seat, kind);
    if i == phases.len() - 1 {
        if !earlier.contains(id) {
            assert(all[earlier.len() as int] == id);
        }
    } else {
        assert(phases.drop_last()[i] == phases[i]);
        lemma_wanted_covers_every_phase(phases.drop_last(), seat, kind, i);
        let k = choose|k: int| 0 <= k < earlier.len() && earlier[k] == id;
        assert(all[k] == id);
    }
}

/// The content wanted for a seat is only what some phase gives it, and each
/// piece is wanted once.
pub proof fn lemma_wanted_is_exact(phases: Seq<(Seq<char>, PhaseView)>, seat: int, kind: ContentKind)
    ensures
        wanted_ids(phases, seat, kind).no_duplicates(),
        forall|k: int|
            0 <= k < wanted_ids(phases, seat, kind).len() ==> exists|i: int|
                0 <= i < phases.len() && assigned((#[trigger] phases[i]).1, seat, kind) == Some(
                    #[trigger] wanted_ids(phases, seat, kind)[k],
                ),
    decreases phases.len(),
{
    let all = wanted_ids(phases, seat, kind);
    if phases.len() > 0 {
        let earlier = wanted_ids(phases.drop_last(), seat, kind);
        lemma_wanted_is_exact(phases.drop_last(), seat, kind);
        assert forall|k: int| 0 <= k < all.len() implies exists|i: int|
            0 <= i < phases.len() && assigned((#[trigger] phases[i]).1, seat, kind) == Some(
                #[trigger] all[k],
            ) by {
            if k < earlier.len() {
                assert(all[k] == earlier[k]);
                let i = choose|i: int|
                    0 <= i < phases.drop_last().len() && assigned(
                        (#[trigger] phases.drop_last()[i]).1,
                        seat,
                        kind,
                    ) == Some(earlier[k]);
                assert(phases[i] == phases.drop_last()[i]);
            } else {
                let top = phases.len() - 1;
                assert(assigned(phases[top].1, seat, kind) == Some(all[k]));
            }
        }
    }
}

/// Content that is wanted and that the palette holds is asked for: the
/// files to read name it, with the path that the palette gives.
pub proof fn lemma_resolved_covers(ids: Seq<Seq<char>>, refs: Seq<ContentRefView>, id: Seq<char>)
    requires
        ids.contains(id),
        last_path(refs, id) is Some,
    ensures
        resolved(ids, refs).contains(ContentRefView { id, path: last_path(refs, id)->0 }),
    decreases ids.len(),
{
    let wanted = ContentRefView { id, path: last_path(refs, id)->0 };
    let all = resolved(ids, refs);
    let earlier = resolved(ids.drop_last(), refs);
    if ids.last() == id {
        assert(all[earlier.len() as int] == wanted);
    } else {
        let k = choose|k: int| 0 <= k < ids.len() && ids[k] == id;
        assert(ids.drop_last()[k] == id);
        lemma_resolved_covers(ids.drop_last(), refs, id);
        let m = choose|m: int| 0 <= m < earlier.len() && earlier[m] == wanted;
        assert(all[m] == wanted);
    }
}

/// A ready request asks for what any phase gives the seat. Where the
/// client `id` holds the seat with the index `seat`, some phase gives that
/// seat content of some kind, and the palette of that kind holds the
/// content, the files to read for the manifest name it: no single phase
/// need give the seat all of what it is asked to hold.
pub proof fn lemma_ready_covers_every_phase(
    app: AppStateView,
    seats: Seats,
    id: Seq<char>,
    seat: usize,
    kind: ContentKind,
    i: int,
)
    requires
        id.len() > 0,
        knows_id(seats, id),
        index_of_text(id_map(seats)[id]) == Some(seat),
        0 <= i < app.phases.len(),
        assigned(app.phases[i].1, seat as int, kind) is Some,
        last_path(
            palette_refs(palette_of(app, kind)),
            assigned(app.phases[i].1, seat as int, kind)->0,
        ) is Some,
    ensures
        ({
            let content = assigned(app.phases[i].1, seat as int, kind)->0;
            let refs = palette_refs(palette_of(app, kind));
            let file = ContentRefView { id: content, path: last_path(refs, content)->0 };
            ready_outcome(app, seats, id) matches OutcomeView::Manifest(request)
                && match kind {
                ContentKind::Patch => request.patch_files.contains(file),
                ContentKind::Sheet => request.sheet_files.contains(file),
            }
        }),
{
    let content = assigned(app.phases[i].1, seat as int, kind)->0;
    let refs = palette_refs(palette_of(app, kind));
    lemma_wanted_covers_every_phase(app.phases, seat as int, kind, i);
    lemma_resolved_covers(wanted_ids(app.phases, seat as int, kind), refs, content);
}

/// A file that was read is in the manifest, under the identifier of its
/// content and with the hash of what was read.
pub proof fn lemma_read_files_are_listed(
    files: Seq<ContentRefView>,
    contents: Seq<Option<Seq<u8>>>,
    k: int,
)
    requires
        0 <= k < files.len(),
        k < contents.len(),
        contents[k] is Some,
    ensures
        hashed(files, contents).contains(
            ManifestEntryView { name: files[k].id, hash: file_hash_of(contents[k]->0) },
        ),
    decreases files.len(),
{
    let entry = ManifestEntryView { name: files[k].id, hash: file_hash_of(contents[k]->0) };
    let all = hashed(files, contents);
    let earlier = hashed(files.drop_last(), contents);
    if k == files.len() - 1 {
        assert(all[earlier.len() as int] == entry);
    } else {
        assert(files.drop_last()[k] == files[k]);
        lemma_read_files_are_listed(files.drop_last(), contents, k);
        let m = choose|m: int| 0 <= m < earlier.len() && earlier[m] == entry;
        assert(all[m] == entry);
    }
}

/// A file that could not be read is left out of the manifest without a
/// word: every entry of the manifest belongs to a file that was read.
pub proof fn lemma_only_read_files_are_listed(
    files: Seq<ContentRefView>,
    contents: Seq<Option<Seq<u8>>>,
)
    ensures
        forall|m: int|
            0 <= m < hashed(files, contents).len() ==> exists|k: int|
                0 <= k < files.len() && k < contents.len() && (#[trigger] contents[k]) is Some
                    && (#[trigger] hashed(files, contents)[m]) == (ManifestEntryView {
                    name: files[k].id,
                    hash: file_hash_of(contents[k]->0),
                }),
    decreases files.len(),
{
    let all = hashed(files, contents);
    if files.len() > 0 {
        let earlier = hashed(files.drop_last(), contents);
        lemma_only_read_files_are_listed(files.drop_last(), contents);
        assert forall|m: int| 0 <= m < all.len() implies exists|k: int|
            0 <= k < files.len() && k < contents.len() && (#[trigger] contents[k]) is Some && (
            #[trigger] all[m]) == (ManifestEntryView {
                name: files[k].id,
                hash: file_hash_of(contents[k]->0),
            }) by {
            if m < earlier.len() {
                assert(all[m] == earlier[m]);
                let k = choose|k: int|
                    0 <= k < files.drop_last().len() && k < contents.len() && (
                    #[trigger] contents[k]) is Some && earlier[m] == (ManifestEntryView {
                        name: files.drop_last()[k].id,
                        hash: file_hash_of(contents[k]->0),
                    });
                assert(files.drop_last()[k] == files[k]);
            } else {
                let top = files.len() - 1;
                assert(contents[top] is Some);
            }
        }
    }
}

/// A seat without both a patch and a sheet is left out of the cue, and the
/// cue still goes to every connection. Where the store holds the phase and a
/// server is in the slot, the cue is made; it has no entry for a seat that
/// the phase gives only a patch, only a sheet or neither; and it goes to
/// all the connections of the server.
pub proof fn lemma_cue_leaves_out_partial_seats(
    senders: Seq<u64>,
    phases: Seq<(Seq<char>, PhaseView)>,
    phase_id: Seq<char>,
    start_time: i64,
    seat: int,
)
    requires
        has_key(phases, phase_id),
        value_of(phases, phase_id).assignments.len() <= usize::MAX,
        0 <= seat < value_of(phases, phase_id).assignments.len(),
        value_of(phases, phase_id).assignments[seat].rnbo_id is None || value_of(
            phases,
            phase_id,
        ).assignments[seat].sheet_id is None,
    ensures
        phase_cue_of(Some(senders), phases, phase_id, start_time) matches Ok(cue) && cue.targets
            == senders && cue.payload.bpm == value_of(phases, phase_id).bpm
            && cue.payload.start_time == start_time && (forall|k: int|
            0 <= k < cue.payload.assignments.len() ==> (#[trigger] cue.payload.assignments[k]).0
                != seat),
{
    lemma_cue_names_full_seats(value_of(phases, phase_id).assignments, seat);
}

/// A message for all clients reaches every claimed seat: the connection of
/// each seat is among those that the message goes to.
pub proof fn lemma_push_reaches_every_seat(seats: Seats, i: int)
    requires
        0 <= i < seats.len(),
        seats[i].1.sender is Some,
    ensures
        connections(seats).contains(seats[i].1.sender->0),
    decreases seats.len(),
{
    let c = seats[i].1.sender->0;
    let all = connections(seats);
    let earlier = connections(seats.drop_last());
    if i == seats.len() - 1 {
        assert(all[earlier.len() as int] == c);
    } else {
        assert(seats.drop_last()[i] == seats[i]);
        lemma_push_reaches_every_seat(seats.drop_last(), i);
        let k = choose|k: int| 0 <= k < earlier.len() && earlier[k] == c;
        assert(all[k] == c);
    }
}

/// A message whose `type` is a string other than the six known asks for
/// nothing, whatever else it holds.
pub proof fn lemma_unknown_tag_is_refused(
    tag: Seq<char>,
    seat: MemberView,
    id: MemberView,
    client_time: MemberView,
    file_type: MemberView,
)
    requires
        tag != "ping"@,
        tag != "j"@,
        tag != "rj"@,
        tag != "time_request"@,
        tag != "ready"@,
        tag != "file_request"@,
    ensures
        request_of_members(Some(MemberView::Text(tag)), seat, id, client_time, file_type) == Err::<
            RequestView,
            ProtocolError,
        >(ProtocolError::UnknownMessageType),
{
}

/// A request that could not be read, for whatever reason, is answered with
/// the reason and changes nothing in the registry, whatever state the
/// registry and the design are in. For a message of no known type the
/// answer is one fixed text.
pub proof fn lemma_refusal_changes_nothing(
    error: ProtocolError,
    before: PerformanceStateView,
    app: AppStateView,
    sender: u64,
    after: PerformanceStateView,
    outcome: OutcomeView,
)
    requires
        request_handled(Err(error), before, app, sender, after, outcome),
    ensures
        after == before,
        outcome == refusal(error),
        error == ProtocolError::UnknownMessageType ==> (outcome matches OutcomeView::Reply(reply)
            && reply.wire_text() == "{\"type\":\"error\",\"message\":\"Unknown message type\"}"@),
{
    lemma_unknown_type_wire_text();
}

/// A message of no known type is answered with one fixed text and changes
/// nothing in the registry.
pub proof fn lemma_unknown_type_changes_nothing(
    msg: Seq<char>,
    before: PerformanceStateView,
    app: AppStateView,
    sender: u64,
    after: PerformanceStateView,
    outcome: OutcomeView,
)
    requires
        request_of_message(msg) == Err::<RequestView, ProtocolError>(
            ProtocolError::UnknownMessageType,
        ),
        handled(msg, before, app, sender, after, outcome),
    ensures
        after == before,
        outcome == refusal(ProtocolError::UnknownMessageType),
        outcome matches OutcomeView::Reply(reply) && reply.wire_text()
            == "{\"type\":\"error\",\"message\":\"Unknown message type\"}"@,
{
    lemma_unknown_type_wire_text();
}

/// The text that answers a message of no known type.
pub proof fn lemma_unknown_type_wire_text()
    ensures
        ProtocolError::UnknownMessageType.wire_text()
            == "{\"type\":\"error\",\"message\":\"Unknown message type\"}"@,
{
    reveal_strlit("{\"type\":\"error\",\"message\":\"");
    reveal_strlit("Unknown message type");
    reveal_strlit("\"}");
    reveal_strlit("{\"type\":\"error\",\"message\":\"Unknown message type\"}");
    assert(ProtocolError::UnknownMessageType.wire_text()
        =~= "{\"type\":\"error\",\"message\":\"Unknown message type\"}"@);
}

} // verus!
