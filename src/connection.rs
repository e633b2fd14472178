use vstd::prelude::*;

use tokio::sync::mpsc::UnboundedSender;

use crate::codec::{decode, encode_spec, json_envelope, DecodeError};
use crate::registry::{recipients, register_spec, unregister_spec, BroadcastReport, PeerRegistry};

verus! {

/// Where a connection stands in its life.
#[derive(Clone, Copy, Debug, PartialEq, Eq, Structural)]
pub enum ConnectionState {
    /// The transport is accepted; the protocol upgrade is under way.
    Upgrading,
    /// Upgraded; the identification frame is awaited.
    AwaitingIdentity,
    /// Identified and registered; frames are read and broadcast.
    Active,
    /// Finished; nothing more happens.
    Closed,
}

/// What the transport reports to a connection.
#[derive(Clone, Debug, PartialEq, Eq)]
pub enum ConnectionEvent {
    /// The protocol upgrade completed.
    Upgraded,
    /// The protocol upgrade failed.
    UpgradeFailed,
    /// A text frame arrived.
    Frame(String),
    /// A frame arrived whose payload is not text.
    UnreadableFrame,
    /// Reading failed, or the peer closed the transport.
    ReceiveEnded,
    /// Writing to the peer failed.
    WriteFailed,
}

/// What handling one event did.
#[derive(Clone, Debug, PartialEq, Eq)]
pub enum Outcome {
    /// Nothing to do.
    Idle,
    /// The peer identified itself and was registered; `replaced` says whether
    /// an entry of the same identity was already there.
    Registered { username: String, replaced: bool },
    /// A chat frame was handed to the other peers.
    Broadcast(BroadcastReport),
    /// A frame was dropped; the connection goes on.
    Dropped(DecodeError),
    /// The connection ended; `unregistered` says whether an entry was removed.
    Closed { unregistered: bool },
}

/// Whether a text is a JSON object with string members `username` and
/// `content`.
pub open spec fn is_envelope(t: Seq<char>) -> bool {
    json_envelope(t) is Some
}

/// The wire text a received frame is passed on as: the envelope it holds,
/// written afresh.
pub open spec fn relayed(t: Seq<char>) -> Seq<char> {
    encode_spec((json_envelope(t)->0).0, (json_envelope(t)->0).1)
}

/// Whether an event ends the connection's transport.
pub open spec fn is_terminal(e: ConnectionEvent) -> bool {
    match e {
        ConnectionEvent::UpgradeFailed | ConnectionEvent::ReceiveEnded
        | ConnectionEvent::WriteFailed => true,
        _ => false,
    }
}

/// Whether an event is a frame that holds an envelope.
pub open spec fn is_good_frame(e: ConnectionEvent) -> bool {
    match e {
        ConnectionEvent::Frame(t) => is_envelope(t@),
        _ => false,
    }
}

/// The state after an event.
pub open spec fn next_state(s: ConnectionState, e: ConnectionEvent) -> ConnectionState {
    match s {
        ConnectionState::Upgrading => match e {
            ConnectionEvent::Upgraded => ConnectionState::AwaitingIdentity,
            _ => ConnectionState::Closed,
        },
        ConnectionState::AwaitingIdentity => if is_good_frame(e) {
            ConnectionState::Active
        } else {
            ConnectionState::Closed
        },
        ConnectionState::Active => if is_terminal(e) {
            ConnectionState::Closed
        } else {
            ConnectionState::Active
        },
        ConnectionState::Closed => ConnectionState::Closed,
    }
}

/// A frame that holds no envelope leaves an active connection active and
/// its registry untouched, so the frames after it are handled as if it had
/// never come.
pub proof fn lemma_bad_frame_harmless(bad: ConnectionEvent, next: ConnectionEvent)
    requires
        bad is Frame,
        !is_good_frame(bad),
    ensures
        next_state(ConnectionState::Active, bad) == ConnectionState::Active,
        !is_terminal(bad),
        next_state(next_state(ConnectionState::Active, bad), next) == next_state(
            ConnectionState::Active,
            next,
        ),
{
}

/// Once closed, a connection stays closed whatever comes, so its cleanup
/// runs at most once.
pub proof fn lemma_closed_is_final(e: ConnectionEvent)
    ensures
        next_state(ConnectionState::Closed, e) == ConnectionState::Closed,
{
}

/// One connection: the identity it registers under, its state, and until it
/// registers, the endpoint that feeds its writer.
pub struct Connection {
    peer_id: String,
    state: ConnectionState,
    outbox: Option<UnboundedSender<String>>,
}

impl Connection {
    /// The connection holds its endpoint until it registers.
    pub open spec fn wf(&self) -> bool {
        (self.state_spec() == ConnectionState::Upgrading || self.state_spec()
            == ConnectionState::AwaitingIdentity) ==> self.outbox_spec() is Some
    }

    pub closed spec fn state_spec(&self) -> ConnectionState {
        self.state
    }

    pub closed spec fn peer_id_spec(&self) -> Seq<char> {
        self.peer_id@
    }

    pub closed spec fn outbox_spec(&self) -> Option<UnboundedSender<String>> {
        self.outbox
    }

    /// A connection just accepted from `peer_id`, whose writer drains `outbox`.
    pub fn new(peer_id: String, outbox: UnboundedSender<String>) -> (c: Connection)
        ensures
            c.wf(),
            c.state_spec() == ConnectionState::Upgrading,
            c.peer_id_spec() == peer_id@,
            c.outbox_spec() == Some(outbox),
    {
        Connection { peer_id, state: ConnectionState::Upgrading, outbox: Some(outbox) }
    }

    pub fn state(&self) -> (s: ConnectionState)
        ensures
            s == self.state_spec(),
    {
        self.state
    }

    pub fn peer_id(&self) -> (r: &String)
        ensures
            r@ == self.peer_id_spec(),
    {
        &self.peer_id
    }

    pub fn is_closed(&self) -> (r: bool)
        ensures
            r == (self.state_spec() == ConnectionState::Closed),
    {
        self.state == ConnectionState::Closed
    }

    /// Handles one event. Identification registers the connection; in the
    /// active state an envelope is broadcast to the other peers and a bad
    /// frame is dropped; an end of the transport unregisters the connection
    /// if it had registered. Nothing else touches the registry.
    pub fn handle(&mut self, registry: &mut PeerRegistry, event: ConnectionEvent) -> (out: Outcome)
        requires
            old(self).wf(),
            old(registry).wf(),
        ensures
            final(self).wf(),
            final(registry).wf(),
            final(self).peer_id_spec() == old(self).peer_id_spec(),
            final(self).state_spec() == next_state(old(self).state_spec(), event),
            old(self).state_spec() == ConnectionState::AwaitingIdentity && is_good_frame(event)
                ==> final(registry)@ == register_spec(
                old(registry)@,
                old(self).peer_id_spec(),
                old(self).outbox_spec()->0,
            ),
            old(self).state_spec() == ConnectionState::Active && is_terminal(event)
                ==> final(registry)@ == unregister_spec(old(registry)@, old(self).peer_id_spec()),
            !(old(self).state_spec() == ConnectionState::AwaitingIdentity && is_good_frame(event))
                && !(old(self).state_spec() == ConnectionState::Active && is_terminal(event))
                ==> final(registry)@ == old(registry)@,
            old(self).state_spec() == ConnectionState::AwaitingIdentity && is_good_frame(event)
                ==> out is Registered,
            old(self).state_spec() == ConnectionState::Active && is_good_frame(event)
                ==> out is Broadcast,
            old(self).state_spec() == ConnectionState::Active && event is Frame && !is_good_frame(
                event,
            ) ==> out is Dropped,
            old(self).state_spec() != ConnectionState::Closed && next_state(
                old(self).state_spec(),
                event,
            ) == ConnectionState::Closed ==> out is Closed,
            match out {
                Outcome::Idle => !(old(self).state_spec() == ConnectionState::Active
                    && event is Frame) && !(old(self).state_spec() != ConnectionState::Closed
                    && next_state(old(self).state_spec(), event) == ConnectionState::Closed),
                Outcome::Registered { username, replaced } => {
                    &&& old(self).state_spec() == ConnectionState::AwaitingIdentity
                    &&& is_good_frame(event)
                    &&& username@ == (json_envelope(event->Frame_0@)->0).0
                    &&& replaced == old(registry).has(old(self).peer_id_spec())
                },
                Outcome::Broadcast(report) => {
                    &&& old(self).state_spec() == ConnectionState::Active
                    &&& is_good_frame(event)
                    &&& report.frame@ == relayed(event->Frame_0@)
                    &&& report.deliveries@.map_values(|d: crate::registry::Delivery| d.peer@)
                        == recipients(old(registry).ids(), old(self).peer_id_spec())
                },
                Outcome::Dropped(_) => old(self).state_spec() == ConnectionState::Active
                    && event is Frame && !is_good_frame(event),
                Outcome::Closed { unregistered } => {
                    &&& old(self).state_spec() != ConnectionState::Closed
                    &&& next_state(old(self).state_spec(), event) == ConnectionState::Closed
                    &&& unregistered == (old(self).state_spec() == ConnectionState::Active
                        && old(registry).has(old(self).peer_id_spec()))
                },
            },
    {
        match self.state {
            ConnectionState::Upgrading => match event {
                ConnectionEvent::Upgraded => {
                    self.state = ConnectionState::AwaitingIdentity;
                    Outcome::Idle
                },
                _ => {
                    self.state = ConnectionState::Closed;
                    Outcome::Closed { unregistered: false }
                },
            },
            ConnectionState::AwaitingIdentity => {
                let decoded = match &event {
                    ConnectionEvent::Frame(text) => match decode(text.as_str()) {
                        Ok(m) => Some(m),
                        Err(_) => None,
                    },
                    _ => None,
                };
                match decoded {
                    Some(m) => {
                        assert(is_good_frame(event));
                        let outbox = self.outbox.take().unwrap();
                        let replaced = registry.register(self.peer_id.clone(), outbox);
                        self.state = ConnectionState::Active;
                        Outcome::Registered { username: m.username, replaced }
                    },
                    None => {
                        assert(!is_good_frame(event));
                        self.state = ConnectionState::Closed;
                        Outcome::Closed { unregistered: false }
                    },
                }
            },
            ConnectionState::Active => match event {
                ConnectionEvent::Frame(text) => match decode(text.as_str()) {
                    Ok(m) => {
                        let report = registry.broadcast(self.peer_id.as_str(), &m);
                        Outcome::Broadcast(report)
                    },
                    Err(e) => Outcome::Dropped(e),
                },
                ConnectionEvent::UpgradeFailed | ConnectionEvent::ReceiveEnded
                | ConnectionEvent::WriteFailed => {
                    let unregistered = registry.unregister(self.peer_id.as_str());
                    self.state = ConnectionState::Closed;
                    Outcome::Closed { unregistered }
                },
                _ => Outcome::Idle,
            },
            ConnectionState::Closed => Outcome::Idle,
        }
    }
}

} // verus!
