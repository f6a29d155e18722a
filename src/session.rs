//! The lifecycle of one connection: handshake, then active, then closed.
//!
//! The connection's owner performs the I/O (the timed handshake read, the
//! reply, the inbound loop) and asks this state machine what each step does to
//! the registry.

use vstd::prelude::*;
use vstd::string::*;

use crate::message::{Handshake, HandshakeReply};
use crate::payload::Error;
use crate::registry::{register_outcome, Registry};

verus! {

/// Where a connection stands.
pub enum Lifecycle {
    /// Waiting for the client's handshake.
    Handshake,
    /// Registered under this id.
    Active(String),
    /// Finished; it holds no registry entry.
    Closed,
}

/// The registry table once a connection in `state` has been torn down.
pub open spec fn after_teardown<H>(state: Lifecycle, m: Map<Seq<char>, H>) -> Map<Seq<char>, H> {
    match state {
        Lifecycle::Active(uid) => m.remove(uid@),
        _ => m,
    }
}

impl Lifecycle {
    pub fn new() -> (r: Self)
        ensures
            r is Handshake,
    {
        Lifecycle::Handshake
    }

    /// Decides a handshake that was read (or failed to decode): registers the
    /// token unless it is taken, and gives the reply to send. On success the
    /// connection becomes active under the token; otherwise it is closed and
    /// the registry is unchanged.
    pub fn process_handshake<H>(
        &mut self,
        registry: &mut Registry<H>,
        handshake: Result<Handshake, Error>,
        handle: H,
    ) -> (r: (bool, HandshakeReply))
        requires
            *old(self) is Handshake,
            old(registry).wf(),
        ensures
            final(registry).wf(),
            match handshake {
                Ok(h) => {
                    &&& (r.0, final(registry)@) == register_outcome(old(registry)@, h.token@, handle)
                    &&& r.0 ==> r.1.success && r.1.message is None
                        && (*final(self) matches Lifecycle::Active(uid) && uid@ == h.token@)
                    &&& !r.0 ==> !r.1.success && *final(self) is Closed
                        && (r.1.message matches Some(m) && m@ == "User existed"@)
                },
                Err(e) => {
                    &&& !r.0
                    &&& final(registry)@ == old(registry)@
                    &&& *final(self) is Closed
                    &&& !r.1.success
                    &&& r.1.message matches Some(m) && m@ == e.spec_describe()
                },
            },
    {
        match handshake {
            Ok(h) => {
                let token = h.token;
                let uid = token.clone();
                if registry.register(token, handle) {
                    *self = Lifecycle::Active(uid);
                    (true, HandshakeReply::success(None))
                } else {
                    *self = Lifecycle::Closed;
                    (false, HandshakeReply::failed(Some(String::from_str("User existed"))))
                }
            },
            Err(e) => {
                *self = Lifecycle::Closed;
                (false, HandshakeReply::error(&e))
            },
        }
    }

    /// Gives up a handshake that did not arrive in time, or could not be read
    /// at all: the connection closes without a registry entry, and the reply
    /// to try to send says why.
    pub fn abandon_handshake(&mut self) -> (r: HandshakeReply)
        requires
            *old(self) is Handshake,
        ensures
            *final(self) is Closed,
            !r.success,
            r.message matches Some(m) && m@ == "Handshake timeout"@,
    {
        *self = Lifecycle::Closed;
        HandshakeReply::failed(Some(String::from_str("Handshake timeout")))
    }

    /// The id this connection is registered under, while it is active.
    pub fn client(&self) -> (r: Option<&String>)
        ensures
            match self {
                Lifecycle::Active(uid) => r == Some(uid),
                _ => r is None,
            },
    {
        match self {
            Lifecycle::Active(uid) => Some(uid),
            _ => None,
        }
    }

    /// Ends the connection: an active one leaves the registry; one that never
    /// completed its handshake, or was already torn down, changes nothing.
    pub fn teardown<H>(&mut self, registry: &mut Registry<H>)
        requires
            old(registry).wf(),
        ensures
            *final(self) is Closed,
            final(registry).wf(),
            final(registry)@ == after_teardown(*old(self), old(registry)@),
    {
        if let Lifecycle::Active(uid) = self {
            registry.remove(uid);
        }
        *self = Lifecycle::Closed;
    }
}

/// Teardown is idempotent, and a connection that never completed its
/// handshake leaves the registry as it was.
pub proof fn lemma_teardown_idempotent<H>(state: Lifecycle, m: Map<Seq<char>, H>)
    ensures
        after_teardown(Lifecycle::Closed, after_teardown(state, m)) == after_teardown(state, m),
        !(state is Active) ==> after_teardown(state, m) == m,
{
}

} // verus!
