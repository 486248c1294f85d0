//! The decisions around the presence state machine: when to connect to
//! Discord, what happens to a message while Discord cannot be reached or
//! after a send failed, and how a player connection's WebSocket frames are
//! relayed.

use vstd::prelude::*;
use crate::presence::{ActionView, PresenceAction, PresenceState, RpcMessage, MessageView, presence_step};

verus! {

/// The client's side of the link to Discord, with the presence state.
pub struct Session {
    /// A connection to Discord is held.
    pub connected: bool,
    pub presence: PresenceState,
}

impl Session {
    /// At start: not connected, nothing shown.
    pub fn new() -> (s: Self)
        ensures
            !s.connected,
            s.presence@ is None,
    {
        Session { connected: false, presence: PresenceState::new() }
    }

    /// Whether a connection must be attempted before the next message is
    /// handled: exactly when none is held.
    pub fn wants_connection(&self) -> (r: bool)
        ensures
            r == !self.connected,
    {
        !self.connected
    }

    /// Records the outcome of a connection attempt.
    pub fn connection_attempted(&mut self, ok: bool)
        ensures
            final(self).connected == ok,
            final(self).presence@ == old(self).presence@,
    {
        self.connected = ok;
    }

    /// Handles a message. Without a connection the message is dropped: the
    /// action is `Skip` and the presence state stays as it was. With one, the
    /// presence state machine takes the message.
    pub fn deliver(&mut self, msg: RpcMessage, now: i64) -> (action: PresenceAction)
        ensures
            final(self).connected == old(self).connected,
            !old(self).connected ==> action@ == ActionView::Skip && final(self).presence@
                == old(self).presence@,
            old(self).connected ==> (final(self).presence@, action@) == presence_step(
                old(self).presence@,
                msg@,
                now,
            ),
    {
        if self.connected {
            self.presence.handle(msg, now)
        } else {
            PresenceAction::Skip
        }
    }

    /// Records the outcome of sending an action to Discord: a failed send
    /// drops the connection, so the next message attempts a new one. The
    /// presence state is kept as it was.
    pub fn sent(&mut self, ok: bool)
        ensures
            final(self).connected == (old(self).connected && ok),
            final(self).presence@ == old(self).presence@,
    {
        self.connected = self.connected && ok;
    }
}

/// What a player connection's WebSocket yields next.
pub enum Incoming {
    /// A message that parsed.
    Message(RpcMessage),
    /// A text frame that is not valid UTF-8, or not a valid message.
    Undecodable,
    /// A binary, ping or pong frame.
    NotText,
    /// The close frame.
    Closed,
    /// A read error.
    Failed,
}

/// What to do with what the WebSocket yielded.
pub enum RelayAction {
    /// Pass the message on to the Discord side.
    Forward(RpcMessage),
    /// Read the next frame.
    Ignore,
    /// Stop reading this connection.
    Stop,
}

/// A relay action seen as character sequences.
pub enum RelayView {
    Forward(MessageView),
    Ignore,
    Stop,
}

impl View for RelayAction {
    type V = RelayView;

    open spec fn view(&self) -> RelayView {
        match self {
            RelayAction::Forward(m) => RelayView::Forward(m@),
            RelayAction::Ignore => RelayView::Ignore,
            RelayAction::Stop => RelayView::Stop,
        }
    }
}

/// The relay of one player connection to the Discord side.
pub struct Relay {
    open: bool,
}

impl Relay {
    /// The connection is still read.
    pub closed spec fn is_open(&self) -> bool {
        self.open
    }

    /// A relay for a connection just accepted.
    pub fn new() -> (r: Self)
        ensures
            r.is_open(),
    {
        Relay { open: true }
    }

    /// Whether the connection is still read.
    pub fn open(&self) -> (r: bool)
        ensures
            r == self.is_open(),
    {
        self.open
    }

    /// Decides what to do with what the WebSocket yielded: a close frame or
    /// a read error ends the connection; frames that are not text or do not
    /// decode are passed over; a message is forwarded. Once stopped, the
    /// relay stays stopped.
    pub fn on_incoming(&mut self, ev: Incoming) -> (action: RelayAction)
        ensures
            !old(self).is_open() ==> action@ == RelayView::Stop && !final(self).is_open(),
            old(self).is_open() ==> match ev {
                Incoming::Message(m) => action@ == RelayView::Forward(m@) && final(self).is_open(),
                Incoming::Undecodable => action@ == RelayView::Ignore && final(self).is_open(),
                Incoming::NotText => action@ == RelayView::Ignore && final(self).is_open(),
                Incoming::Closed => action@ == RelayView::Stop && !final(self).is_open(),
                Incoming::Failed => action@ == RelayView::Stop && !final(self).is_open(),
            },
    {
        if !self.open {
            return RelayAction::Stop;
        }
        match ev {
            Incoming::Message(m) => RelayAction::Forward(m),
            Incoming::Undecodable => RelayAction::Ignore,
            Incoming::NotText => RelayAction::Ignore,
            Incoming::Closed => {
                self.open = false;
                RelayAction::Stop
            },
            Incoming::Failed => {
                self.open = false;
                RelayAction::Stop
            },
        }
    }

    /// Records whether a forwarded message reached the Discord side: when
    /// it did not, the Discord side is gone and the connection stops.
    pub fn forwarded(&mut self, delivered: bool)
        ensures
            final(self).is_open() == (old(self).is_open() && delivered),
    {
        self.open = self.open && delivered;
    }

    /// Ends the connection: the relay stops and the player's presence is
    /// cleared on the Discord side.
    pub fn finish(&mut self) -> (m: RpcMessage)
        ensures
            !final(self).is_open(),
            m@ == MessageView::Clear,
    {
        self.open = false;
        RpcMessage::Clear
    }
}

} // verus!
