//! The life of a server: made with a session lifetime, started on a port,
//! stopped. At most one is kept at a time, in the single slot of the manager.

use vstd::prelude::*;
use crate::performance_types::{PerformanceState, PerformanceStateView};

verus! {

/// Where and how to listen: what the caller needs to open the listener.
#[derive(Debug)]
pub struct ListenPlan {
    /// The address to bind, here every interface.
    pub address: [u8; 4],
    pub port: u16,
    /// The path on which connections are upgraded to sockets.
    pub socket_path: &'static str,
    /// The directory that every other path is served from.
    pub static_dir: &'static str,
    /// Whether requests from every origin are let in, on every route.
    pub allow_any_origin: bool,
    /// The certificate and the key of the listener.
    pub cert_path: &'static str,
    pub key_path: &'static str,
}

impl ListenPlan {
    /// Whether the plan is the one for the port `port`.
    pub open spec fn is_for(self, port: u16) -> bool {
        &&& self.address@ == seq![0u8, 0u8, 0u8, 0u8]
        &&& self.port == port
        &&& self.socket_path@ == "ws"@
        &&& self.static_dir@ == "./static"@
        &&& self.allow_any_origin
        &&& self.cert_path@ == "certs/cert.pem"@
        &&& self.key_path@ == "certs/key.pem"@
    }

    /// The plan for a listener on the port `ws_port`.
    pub fn new(ws_port: u16) -> (plan: Self)
        ensures
            plan.is_for(ws_port),
    {
        let address: [u8; 4] = [0, 0, 0, 0];
        assert(address@ =~= seq![0u8, 0u8, 0u8, 0u8]);
        ListenPlan {
            address,
            port: ws_port,
            socket_path: "ws",
            static_dir: "./static",
            allow_any_origin: true,
            cert_path: "certs/cert.pem",
            key_path: "certs/key.pem",
        }
    }
}

/// The registry of a server that has just been made or stopped.
pub open spec fn empty_registry(ttl_ms: u64) -> PerformanceStateView {
    PerformanceStateView { start_time: None, session_ttl_ms: ttl_ms, seats: Seq::empty() }
}

/// One server: whether its listener is up, and its registry of seats.
pub struct ServerController {
    /// Whether a listener was started and not stopped since.
    pub listening: bool,
    pub perf_state: PerformanceState,
}

impl ServerController {
    /// A server that does not listen yet, with an empty registry whose
    /// sessions last `ttl_ms` milliseconds.
    pub fn new(ttl_ms: u64) -> (controller: Self)
        ensures
            !controller.listening,
            controller.perf_state@ == empty_registry(ttl_ms),
    {
        ServerController { listening: false, perf_state: PerformanceState::new(ttl_ms) }
    }

    /// Takes note of how opening the listener on `ws_port` went. `opened` is
    /// what the caller got when it bound the port and loaded the certificate
    /// and the key of [`ListenPlan::new`]. Where that went well the server
    /// is marked as listening and the plan is handed back; where it failed
    /// the error is handed on and the server is left as it was, so that it
    /// is never half started.
    pub fn start_tls(&mut self, ws_port: u16, opened: Result<(), String>) -> (started: Result<
        ListenPlan,
        String,
    >)
        ensures
            match started {
                Ok(plan) => opened is Ok && plan.is_for(ws_port) && final(self).listening
                    && final(self).perf_state == old(self).perf_state,
                Err(message) => opened == Err::<(), String>(message) && *final(self) == *old(self),
            },
    {
        match opened {
            Ok(()) => {
                self.listening = true;
                Ok(ListenPlan::new(ws_port))
            },
            Err(message) => Err(message),
        }
    }

    /// Stops the server: says whether a listener is to be shut down, and
    /// empties the registry; its session lifetime goes back to zero.
    pub fn stop(&mut self) -> (was_listening: bool)
        ensures
            was_listening == old(self).listening,
            !final(self).listening,
            final(self).perf_state@ == empty_registry(0),
    {
        let was_listening = self.listening;
        self.listening = false;
        self.perf_state = PerformanceState::default();
        was_listening
    }
}

/// Holds the running server, if there is one.
pub struct ServerManager {
    pub controller: Option<ServerController>,
}

impl ServerManager {
    /// Whether the slot holds a server whose listener is up.
    pub open spec fn is_listening(self) -> bool {
        self.controller matches Some(controller) && controller.listening
    }
}

impl Default for ServerManager {
    fn default() -> (manager: Self)
        ensures
            manager.controller is None,
    {
        ServerManager { controller: None }
    }
}

} // verus!
