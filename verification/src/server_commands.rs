//! What the control application asks of the server: start it, stop it, push
//! a message to every client, give the cue for a phase.

use vstd::prelude::*;
use vstd::string::StringExecFns;
use crate::cue::{cue_of, PhaseStartPayload, PhaseStartPayloadView};
use crate::clock::now_millis;
use crate::handlers::broadcast_to_all;
use crate::server_controller::{empty_registry, ListenPlan, ServerController, ServerManager};
use crate::state::{lemma_keys_seen, AppState, PhaseView};
use crate::text_map::{has_key, value_of};

verus! {

/// What a server that has started asks of the caller.
#[derive(Debug)]
pub struct ServerStart {
    /// Whether the listener of an earlier server is still up and is to be
    /// shut down: one listener runs at a time.
    pub replaces_listener: bool,
    /// Where the new listener was opened.
    pub plan: ListenPlan,
}

/// Starts a server on `ws_port` with sessions that last `ttl_ms`
/// milliseconds. `opened` is what the caller got when it bound the port and
/// loaded the certificate and the key of [`ListenPlan::new`]. Where that
/// went well, a new server that listens, with an empty registry, takes the
/// manager's slot in place of any server that was there. Where it failed,
/// the error is handed on and the slot is left as it was: no server is ever
/// half started.
pub fn start_server(
    manager: &mut ServerManager,
    ws_port: u16,
    ttl_ms: u64,
    opened: Result<(), String>,
) -> (start: Result<ServerStart, String>)
    ensures
        match start {
            Ok(started) => opened is Ok && started.plan.is_for(ws_port) && started.replaces_listener
                == old(manager).is_listening() && (
            final(manager).controller matches Some(controller) && controller.listening
                && controller.perf_state@ == empty_registry(ttl_ms)),
            Err(message) => opened == Err::<(), String>(message) && final(manager).controller
                == old(manager).controller,
        },
{
    let mut controller = ServerController::new(ttl_ms);
    match controller.start_tls(ws_port, opened) {
        Ok(plan) => {
            let replaces_listener = match &manager.controller {
                Some(earlier) => earlier.listening,
                None => false,
            };
            manager.controller = Some(controller);
            Ok(ServerStart { replaces_listener, plan })
        },
        Err(message) => Err(message),
    }
}

/// Stops the server in the manager's slot and empties its registry. Says
/// whether a listener is to be shut down. Fails where the slot is empty.
pub fn stop_server(manager: &mut ServerManager) -> (stopped: Result<bool, String>)
    ensures
        match stopped {
            Ok(was_listening) => old(manager).controller matches Some(before) && was_listening
                == before.listening && (final(manager).controller matches Some(after)
                && !after.listening && after.perf_state@ == empty_registry(0)),
            Err(message) => old(manager).controller is None && final(manager).controller is None
                && message@ == "Server not running"@,
        },
{
    let mut slot: Option<ServerController> = None;
    std::mem::swap(&mut manager.controller, &mut slot);
    match slot {
        Some(mut controller) => {
            let was_listening = controller.stop();
            manager.controller = Some(controller);
            Ok(was_listening)
        },
        None => Err(String::from_str("Server not running")),
    }
}

/// The connections that a message for all clients goes to. Fails where no
/// server is in the manager's slot.
pub fn broadcast_json(manager: &ServerManager) -> (targets: Result<Vec<u64>, String>)
    ensures
        match targets {
            Ok(list) => manager.controller matches Some(controller) && list@
                == controller.perf_state@.senders(),
            Err(message) => manager.controller is None && message@ == "Server not running."@,
        },
{
    match &manager.controller {
        Some(controller) => Ok(broadcast_to_all(&controller.perf_state)),
        None => Err(String::from_str("Server not running.")),
    }
}

/// The cue for a phase and the connections it goes to.
#[derive(Debug)]
pub struct PhaseCue {
    pub payload: PhaseStartPayload,
    pub targets: Vec<u64>,
}

pub struct PhaseCueView {
    pub payload: PhaseStartPayloadView,
    pub targets: Seq<u64>,
}

impl View for PhaseCue {
    type V = PhaseCueView;

    open spec fn view(&self) -> PhaseCueView {
        PhaseCueView { payload: self.payload@, targets: self.targets@ }
    }
}

/// What the caller is told where the phase `phase_id` is not in the store.
pub open spec fn phase_not_found(phase_id: Seq<char>) -> Seq<char> {
    "Phase `"@ + phase_id + "` not found"@
}

/// The connections of the server in the manager's slot, if there is one.
pub open spec fn slot_senders(manager: ServerManager) -> Option<Seq<u64>> {
    match manager.controller {
        Some(controller) => Some(controller.perf_state@.senders()),
        None => None,
    }
}

/// The payload of the cue that starts the phase `phase_id` at the instant
/// `start_time`: the tempo of the phase, the instant and the seats that have
/// both a patch and a sheet. There is none where the store has no such phase.
pub open spec fn phase_payload_of(
    phases: Seq<(Seq<char>, PhaseView)>,
    phase_id: Seq<char>,
    start_time: i64,
) -> Result<PhaseStartPayloadView, Seq<char>> {
    if has_key(phases, phase_id) {
        Ok(cue_of(value_of(phases, phase_id), start_time))
    } else {
        Err(phase_not_found(phase_id))
    }
}

/// The connections that a cue goes to: all those of the server in the slot,
/// whether or not the cue names their seats. There are none to name where no
/// server is in the slot.
pub open spec fn cue_targets_of(senders: Option<Seq<u64>>) -> Result<Seq<u64>, Seq<char>> {
    match senders {
        Some(targets) => Ok(targets),
        None => Err("Server is not running"@),
    }
}

/// What asking for the cue of the phase `phase_id` at the instant
/// `start_time` comes to: the payload and the connections it goes to. It
/// fails where the store has no such phase, and otherwise where no server is
/// in the slot.
pub open spec fn phase_cue_of(
    senders: Option<Seq<u64>>,
    phases: Seq<(Seq<char>, PhaseView)>,
    phase_id: Seq<char>,
    start_time: i64,
) -> Result<PhaseCueView, Seq<char>> {
    match phase_payload_of(phases, phase_id, start_time) {
        Err(message) => Err(message),
        Ok(payload) => match cue_targets_of(senders) {
            Err(message) => Err(message),
            Ok(targets) => Ok(PhaseCueView { payload, targets }),
        },
    }
}

/// The result of asking for a cue, seen through the views.
pub open spec fn cue_result_view(cue: Result<PhaseCue, String>) -> Result<PhaseCueView, Seq<char>> {
    match cue {
        Ok(found) => Ok(found@),
        Err(message) => Err(message@),
    }
}

/// The result of asking for a payload, seen through the views.
pub open spec fn payload_result_view(payload: Result<PhaseStartPayload, String>) -> Result<
    PhaseStartPayloadView,
    Seq<char>,
> {
    match payload {
        Ok(found) => Ok(found@),
        Err(message) => Err(message@),
    }
}

/// Makes the payload of the cue that starts the phase `phase_id` at the
/// instant `start_time`. Only the design state is looked at.
pub fn phase_payload(app_state: &AppState, phase_id: &str, start_time: i64) -> (payload: Result<
    PhaseStartPayload,
    String,
>)
    ensures
        payload_result_view(payload) == phase_payload_of(app_state@.phases, phase_id@, start_time),
{
    let found = app_state.phases.get(phase_id);
    proof {
        lemma_keys_seen(app_state.phases@, phase_id@);
    }
    match found {
        Some(phase) => Ok(PhaseStartPayload::new(phase, start_time)),
        None => {
            let mut message = String::from_str("Phase `");
            message.append(phase_id);
            message.append("` not found");
            Err(message)
        },
    }
}

/// Makes the payload of the cue that starts the phase `phase_id` at the
/// present instant: what [`phase_payload`] makes for a reading of the clock.
pub fn phase_start_payload(app_state: &AppState, phase_id: &str) -> (payload: Result<
    PhaseStartPayload,
    String,
>)
    ensures
        exists|start_time: i64|
            start_time >= 0 && payload_result_view(payload) == #[trigger] phase_payload_of(
                app_state@.phases,
                phase_id@,
                start_time,
            ),
{
    let start_time = now_millis();
    let payload = phase_payload(app_state, phase_id, start_time);
    assert(payload_result_view(payload) == phase_payload_of(
        app_state@.phases,
        phase_id@,
        start_time,
    ));
    payload
}

/// Names the connections that a cue goes to. Only the manager's slot is
/// looked at.
pub fn cue_targets(manager: &ServerManager) -> (targets: Result<Vec<u64>, String>)
    ensures
        match targets {
            Ok(list) => cue_targets_of(slot_senders(*manager)) == Ok::<Seq<u64>, Seq<char>>(list@),
            Err(message) => cue_targets_of(slot_senders(*manager)) == Err::<Seq<u64>, Seq<char>>(
                message@,
            ),
        },
{
    match &manager.controller {
        Some(controller) => Ok(broadcast_to_all(&controller.perf_state)),
        None => Err(String::from_str("Server is not running")),
    }
}

/// Makes the cue that starts the phase `phase_id` at the instant
/// `start_time`, for every connection of the running server.
pub fn phase_start_cue(
    manager: &ServerManager,
    app_state: &AppState,
    phase_id: &str,
    start_time: i64,
) -> (cue: Result<PhaseCue, String>)
    ensures
        cue_result_view(cue) == phase_cue_of(
            slot_senders(*manager),
            app_state@.phases,
            phase_id@,
            start_time,
        ),
{
    let payload = match phase_payload(app_state, phase_id, start_time) {
        Ok(payload) => payload,
        Err(message) => {
            return Err(message);
        },
    };
    match cue_targets(manager) {
        Ok(targets) => Ok(PhaseCue { payload, targets }),
        Err(message) => Err(message),
    }
}

/// Gives the cue for the phase `phase_id` at the present instant: what
/// [`phase_start_cue`] makes for a reading of the clock.
pub fn broadcast_phase_start(manager: &ServerManager, app_state: &AppState, phase_id: &str) -> (cue:
    Result<PhaseCue, String>)
    ensures
        exists|start_time: i64|
            start_time >= 0 && cue_result_view(cue) == #[trigger] phase_cue_of(
                slot_senders(*manager),
                app_state@.phases,
                phase_id@,
                start_time,
            ),
{
    let start_time = now_millis();
    let cue = phase_start_cue(manager, app_state, phase_id, start_time);
    assert(cue_result_view(cue) == phase_cue_of(
        slot_senders(*manager),
        app_state@.phases,
        phase_id@,
        start_time,
    ));
    cue
}

} // verus!
