use vstd::prelude::*;
use crate::registry::Registry;
use crate::task::{Task, TaskView, views};

verus! {

/// Where a live-update session is in its life.
#[derive(Debug, Clone, Copy, PartialEq, Eq, Structural)]
pub enum SessionState {
    Connecting,
    Open,
    Closed,
}

/// A frame that arrives from the remote end of a session.
#[derive(Debug, Clone, PartialEq, Eq)]
pub enum Inbound {
    Ping(Vec<u8>),
    Pong(Vec<u8>),
    Text(String),
    Binary(Vec<u8>),
    Close,
    TransportError,
}

/// What the transport is to send back for an inbound frame.
#[derive(Debug, Clone, PartialEq, Eq)]
pub enum Outbound {
    Nothing,
    Pong(Vec<u8>),
    Close,
}

/// Relies on uuid::Uuid::new_v4 for a random identity, taken as its 128-bit
/// value by Uuid::as_u128. Nothing is promised of the value.
#[verifier::external_body]
fn fresh_identity() -> (r: u128) {
    uuid::Uuid::new_v4().as_u128()
}

/// One live-update connection: registered with the registry while it is
/// open, unregistered once when it closes.
pub struct Session {
    identity: u128,
    state: SessionState,
}

impl Session {
    pub closed spec fn id(&self) -> u128 {
        self.identity
    }

    pub closed spec fn phase(&self) -> SessionState {
        self.state
    }

    /// A session that is not yet registered.
    pub fn new(identity: u128) -> (r: Session)
        ensures
            r.id() == identity,
            r.phase() == SessionState::Connecting,
    {
        Session { identity, state: SessionState::Connecting }
    }

    pub fn identity(&self) -> (r: u128)
        ensures
            r == self.id(),
    {
        self.identity
    }

    pub fn state(&self) -> (r: SessionState)
        ensures
            r == self.phase(),
    {
        self.state
    }

    /// Moves a connecting session to `Open` and registers it; in any other
    /// state nothing happens.
    pub fn open(&mut self, registry: &mut Registry)
        requires
            old(registry).wf(),
        ensures
            final(registry).wf(),
            final(registry).capacity() == old(registry).capacity(),
            final(self).id() == old(self).id(),
            old(self).phase() == SessionState::Connecting ==> final(self).phase() == SessionState::Open
                && final(registry)@ == old(registry)@.insert(old(self).id(), Seq::<TaskView>::empty()),
            old(self).phase() != SessionState::Connecting ==> final(self).phase() == old(self).phase()
                && final(registry)@ == old(registry)@,
    {
        if self.state == SessionState::Connecting {
            registry.register(self.identity);
            self.state = SessionState::Open;
        }
    }

    /// Moves the session to `Closed`. An open session is unregistered; closing
    /// again changes nothing.
    pub fn close(&mut self, registry: &mut Registry)
        requires
            old(registry).wf(),
        ensures
            final(registry).wf(),
            final(registry).capacity() == old(registry).capacity(),
            final(self).id() == old(self).id(),
            final(self).phase() == SessionState::Closed,
            old(self).phase() == SessionState::Open ==> final(registry)@ == old(registry)@.remove(
                old(self).id(),
            ),
            old(self).phase() != SessionState::Open ==> final(registry)@ == old(registry)@,
    {
        if self.state == SessionState::Open {
            registry.unregister(self.identity);
        }
        self.state = SessionState::Closed;
    }

    /// Answers one inbound frame. An open session echoes a ping as a pong; a
    /// close frame or a transport error closes the session, and a close frame
    /// is answered with one; every other frame is ignored.
    pub fn on_frame(&mut self, frame: Inbound, registry: &mut Registry) -> (r: Outbound)
        requires
            old(registry).wf(),
        ensures
            final(registry).wf(),
            final(registry).capacity() == old(registry).capacity(),
            final(self).id() == old(self).id(),
            match frame {
                Inbound::Ping(p) => {
                    &&& *final(self) == *old(self)
                    &&& final(registry)@ == old(registry)@
                    &&& old(self).phase() == SessionState::Open ==> r == Outbound::Pong(p)
                    &&& old(self).phase() != SessionState::Open ==> r == Outbound::Nothing
                },
                Inbound::Close | Inbound::TransportError => {
                    &&& final(self).phase() == SessionState::Closed
                    &&& old(self).phase() == SessionState::Open ==> final(registry)@
                        == old(registry)@.remove(old(self).id())
                    &&& old(self).phase() != SessionState::Open ==> final(registry)@
                        == old(registry)@
                    &&& r == (if frame is Close && old(self).phase() != SessionState::Closed {
                        Outbound::Close
                    } else {
                        Outbound::Nothing
                    })
                },
                _ => {
                    &&& *final(self) == *old(self)
                    &&& final(registry)@ == old(registry)@
                    &&& r == Outbound::Nothing
                },
            },
    {
        match frame {
            Inbound::Ping(p) => {
                if self.state == SessionState::Open {
                    Outbound::Pong(p)
                } else {
                    Outbound::Nothing
                }
            },
            Inbound::Close => {
                let was_closed = self.state == SessionState::Closed;
                self.close(registry);
                if was_closed {
                    Outbound::Nothing
                } else {
                    Outbound::Close
                }
            },
            Inbound::TransportError => {
                self.close(registry);
                Outbound::Nothing
            },
            _ => Outbound::Nothing,
        }
    }

    /// The tasks broadcast to an open session and not yet forwarded, in the
    /// order they were broadcast; a session that is not open has none. An
    /// open session that a broadcast dropped for a full outbox is closed.
    pub fn outgoing(&mut self, registry: &mut Registry) -> (r: Vec<Task>)
        requires
            old(registry).wf(),
        ensures
            final(registry).wf(),
            final(registry).capacity() == old(registry).capacity(),
            final(self).id() == old(self).id(),
            old(self).phase() == SessionState::Open && old(registry)@.contains_key(old(self).id())
                ==> views(r@) == old(registry)@[old(self).id()] && final(registry)@ == old(
                registry,
            )@.insert(old(self).id(), Seq::<TaskView>::empty()) && final(self).phase()
                == SessionState::Open,
            old(self).phase() == SessionState::Open && !old(registry)@.contains_key(old(self).id())
                ==> final(self).phase() == SessionState::Closed,
            !(old(self).phase() == SessionState::Open && old(registry)@.contains_key(old(self).id()))
                ==> r@.len() == 0 && final(registry)@ == old(registry)@,
            old(self).phase() != SessionState::Open ==> *final(self) == *old(self),
    {
        if self.state == SessionState::Open {
            if registry.is_registered(self.identity) {
                registry.take_pending(self.identity)
            } else {
                self.state = SessionState::Closed;
                Vec::new()
            }
        } else {
            Vec::new()
        }
    }
}

/// Starts a session for a newly accepted connection: it gets a fresh random
/// identity and is registered, open, under it.
pub fn start_session(registry: &mut Registry) -> (r: Session)
    requires
        old(registry).wf(),
    ensures
        final(registry).wf(),
        final(registry).capacity() == old(registry).capacity(),
        r.phase() == SessionState::Open,
        final(registry)@ == old(registry)@.insert(r.id(), Seq::<TaskView>::empty()),
{
    let mut session = Session::new(fresh_identity());
    session.open(registry);
    session
}

} // verus!
