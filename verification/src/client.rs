//! The protocol client: the connection lifecycle state machine and the
//! orchestrator that classifies each inbound frame and routes it to the
//! registered handlers.
//!
//! The client owns no socket.  The caller connects, sends and receives;
//! this type takes each received text frame through [`ArdeckPlugin::on_frame`]
//! and hands back what to do, so every decision is made here and verified,
//! while the I/O stays outside.

use vstd::prelude::*;
use vstd::string::StringExecFns;

use crate::codec::dec_msg;
use crate::codec::decode;
use crate::messages::Manifest;
use crate::messages::MessageView;
use crate::messages::PluginMessage;
use crate::messages::SwitchInfo;
use crate::registry::Handler;
use crate::registry::Registry;
use crate::registry::matching;
use crate::wire::DecodeError;

verus! {

/// Lifecycle of the session with the studio.
///
/// `Reconnecting` is reserved: nothing here moves to it, and no automatic
/// reconnection is promised.  A caller that wants to retry watches for
/// `Disconnected` or `Error` and connects afresh.
#[derive(Clone, Copy, Debug, PartialEq, Eq, Structural)]
pub enum WebsocketState {
    /// No session has been started yet.
    Idle,
    /// A Hello has been sent; Success has not arrived yet.
    Connecting,
    /// Success arrived: the session is confirmed.
    Connected,
    /// The peer closed the connection.
    Disconnected,
    /// Reserved for callers that reconnect; never entered by the client.
    Reconnecting,
    /// A transport error ended the session.
    Error,
}

/// What handling one inbound frame did.
pub enum FrameOutcome {
    /// A Success message arrived: the session is now confirmed and the
    /// studio's versions are recorded.
    Established,
    /// A Message was routed by its message identifier: the index and
    /// returned flag of each handler that ran.
    MessageRouted(Vec<(usize, bool)>),
    /// An Action was routed by its action identifier, likewise.
    ActionRouted(Vec<(usize, bool)>),
    /// An inbound Hello: a protocol anomaly, ignored and never fatal.
    HelloIgnored,
    /// The frame did not decode; the session carries on unchanged.
    Rejected(DecodeError),
}

/// Mathematical model of a client: its state, its registration keys in
/// order, and the versions the studio reported.
pub struct ClientView {
    pub state: WebsocketState,
    pub action_keys: Seq<Seq<char>>,
    pub message_keys: Seq<Seq<char>>,
    pub studio_version: Option<Seq<char>>,
    pub studio_socket_version: Option<Seq<char>>,
}

/// The protocol client.  `A` handles Action events, `M` handles Message
/// events; both are caller-supplied.
///
/// Registration and frame handling go through `&mut self`, so within one
/// owner they can never race; a caller that registers from one execution
/// context while another drives the receive loop puts the client behind a
/// mutual-exclusion primitive and holds it for each call.  Handlers run
/// synchronously: the receive loop does not see the next frame until
/// every handler for the current one has returned, so a handler that
/// blocks stalls delivery, and handlers must not block indefinitely.
pub struct ArdeckPlugin<A, M> where
    A: Handler<Payload = SwitchInfo>,
    M: Handler<Payload = PluginMessage>,
{
    state: WebsocketState,
    action_handlers: Registry<A>,
    message_handlers: Registry<M>,
    studio_version: Option<String>,
    studio_socket_version: Option<String>,
}

impl<A, M> View for ArdeckPlugin<A, M> where
    A: Handler<Payload = SwitchInfo>,
    M: Handler<Payload = PluginMessage>,
{
    type V = ClientView;

    closed spec fn view(&self) -> ClientView {
        ClientView {
            state: self.state,
            action_keys: self.action_handlers.keys(),
            message_keys: self.message_handlers.keys(),
            studio_version: match self.studio_version {
                Some(s) => Some(s@),
                None => None,
            },
            studio_socket_version: match self.studio_socket_version {
                Some(s) => Some(s@),
                None => None,
            },
        }
    }
}

/// The state a session moves to when one inbound frame is handled:
/// Success confirms the session; every other frame, and every frame that
/// fails to decode, leaves the state alone.
pub open spec fn state_after_frame(
    st: WebsocketState,
    d: Result<MessageView, DecodeError>,
) -> WebsocketState {
    match d {
        Ok(MessageView::Success { .. }) => WebsocketState::Connected,
        _ => st,
    }
}

/// A frame that fails to decode is isolated: after it, any next frame
/// moves the session exactly where it would have moved it anyway.
pub proof fn lemma_rejected_frame_isolated(
    st: WebsocketState,
    bad: Seq<char>,
    next: Seq<char>,
)
    requires
        dec_msg(bad) is Err,
    ensures
        state_after_frame(state_after_frame(st, dec_msg(bad)), dec_msg(next))
            == state_after_frame(st, dec_msg(next)),
{
}

impl<A, M> ArdeckPlugin<A, M> where
    A: Handler<Payload = SwitchInfo>,
    M: Handler<Payload = PluginMessage>,
{
    /// A fresh client: idle, with no handlers and no recorded versions.
    pub fn new() -> (r: Self)
        ensures
            r@.state == WebsocketState::Idle,
            r@.action_keys == Seq::<Seq<char>>::empty(),
            r@.message_keys == Seq::<Seq<char>>::empty(),
            r@.studio_version is None,
            r@.studio_socket_version is None,
    {
        ArdeckPlugin {
            state: WebsocketState::Idle,
            action_handlers: Registry::new(),
            message_handlers: Registry::new(),
            studio_version: None,
            studio_socket_version: None,
        }
    }

    /// The current lifecycle state.
    pub fn current_state(&self) -> (r: WebsocketState)
        ensures
            r == self@.state,
    {
        self.state
    }

    /// The studio version reported by Success, once one arrived.
    pub fn reported_studio_version(&self) -> (r: Option<String>)
        ensures
            match r {
                Some(s) => self@.studio_version == Some(s@),
                None => self@.studio_version is None,
            },
    {
        match &self.studio_version {
            Some(s) => Some(s.clone()),
            None => None,
        }
    }

    /// The protocol version reported by Success, once one arrived.
    pub fn reported_socket_version(&self) -> (r: Option<String>)
        ensures
            match r {
                Some(s) => self@.studio_socket_version == Some(s@),
                None => self@.studio_socket_version is None,
            },
    {
        match &self.studio_socket_version {
            Some(s) => Some(s.clone()),
            None => None,
        }
    }

    /// Register a handler for Action events whose action identifier
    /// equals `action_id`.  Takes effect for frames handled afterwards.
    pub fn add_action_handler(&mut self, action_id: String, handler: A)
        ensures
            final(self)@ == (ClientView {
                action_keys: old(self)@.action_keys.push(action_id@),
                ..old(self)@
            }),
    {
        self.action_handlers.register(action_id, handler);
    }

    /// Register a handler for Message events whose message identifier
    /// equals `message_id`.  Takes effect for frames handled afterwards.
    pub fn add_message_handler(&mut self, message_id: String, handler: M)
        ensures
            final(self)@ == (ClientView {
                message_keys: old(self)@.message_keys.push(message_id@),
                ..old(self)@
            }),
    {
        self.message_handlers.register(message_id, handler);
    }

    /// Open the session: move to `Connecting` and build the Hello message
    /// that the caller must send first, populated from the manifest and
    /// the protocol version this client speaks.
    pub fn begin_session(&mut self, manifest: &Manifest) -> (hello: PluginMessage)
        ensures
            final(self)@ == (ClientView { state: WebsocketState::Connecting, ..old(self)@ }),
            hello@ == (MessageView::Hello {
                plugin_version: manifest.version@,
                ardeck_plugin_web_socket_version: "0.0.1"@,
                plugin_id: manifest.id@,
            }),
    {
        self.state = WebsocketState::Connecting;
        PluginMessage::Hello {
            plugin_version: manifest.version.clone(),
            ardeck_plugin_web_socket_version: String::from_str("0.0.1"),
            plugin_id: manifest.id.clone(),
        }
    }

    /// Handle one inbound text frame: decode it, and either confirm the
    /// session (Success), route it (Message, Action), ignore it (inbound
    /// Hello), or reject it (decode failure).  A rejected frame changes
    /// nothing, so the next frame is processed as if it never arrived.
    pub fn on_frame(&mut self, frame: &str) -> (r: FrameOutcome)
        ensures
            final(self)@.state == state_after_frame(old(self)@.state, dec_msg(frame@)),
            match dec_msg(frame@) {
                Err(e) => {
                    &&& final(self)@ == old(self)@
                    &&& r matches FrameOutcome::Rejected(e2) && e2 == e
                },
                Ok(mv) => match mv {
                    MessageView::Hello { .. } => {
                        &&& final(self)@ == old(self)@
                        &&& r matches FrameOutcome::HelloIgnored
                    },
                    MessageView::Success { ardeck_studio_version, ardeck_studio_web_socket_version } => {
                        &&& final(self)@ == (ClientView {
                            state: WebsocketState::Connected,
                            studio_version: Some(ardeck_studio_version),
                            studio_socket_version: Some(ardeck_studio_web_socket_version),
                            ..old(self)@
                        })
                        &&& r matches FrameOutcome::Established
                    },
                    MessageView::Message { message_id, .. } => {
                        &&& final(self)@ == old(self)@
                        &&& r matches FrameOutcome::MessageRouted(res) && res@.map(
                            |t: int, p: (usize, bool)| p.0 as int,
                        ) == matching(old(self)@.message_keys, message_id)
                    },
                    MessageView::Action { action_id, .. } => {
                        &&& final(self)@ == old(self)@
                        &&& r matches FrameOutcome::ActionRouted(res) && res@.map(
                            |t: int, p: (usize, bool)| p.0 as int,
                        ) == matching(old(self)@.action_keys, action_id)
                    },
                },
            },
    {
        match decode(frame) {
            Err(e) => FrameOutcome::Rejected(e),
            Ok(m) => match m {
                PluginMessage::Hello { .. } => FrameOutcome::HelloIgnored,
                PluginMessage::Success { ardeck_studio_version, ardeck_studio_web_socket_version } => {
                    self.state = WebsocketState::Connected;
                    self.studio_version = Some(ardeck_studio_version);
                    self.studio_socket_version = Some(ardeck_studio_web_socket_version);
                    FrameOutcome::Established
                },
                PluginMessage::Message { message_id, message } => {
                    let payload = PluginMessage::Message {
                        message_id: message_id.clone(),
                        message,
                    };
                    let res = self.message_handlers.dispatch(message_id.as_str(), &payload);
                    FrameOutcome::MessageRouted(res)
                },
                PluginMessage::Action(a) => {
                    let res = self.action_handlers.dispatch(
                        a.target.action_id.as_str(),
                        &a.switch,
                    );
                    FrameOutcome::ActionRouted(res)
                },
            },
        }
    }

    /// The peer closed the connection: the session is over.
    pub fn connection_closed(&mut self)
        ensures
            final(self)@ == (ClientView { state: WebsocketState::Disconnected, ..old(self)@ }),
    {
        self.state = WebsocketState::Disconnected;
    }

    /// A transport error ended the session; nothing more will succeed
    /// until a fresh session is begun.
    pub fn connection_failed(&mut self)
        ensures
            final(self)@ == (ClientView { state: WebsocketState::Error, ..old(self)@ }),
    {
        self.state = WebsocketState::Error;
    }
}

} // verus!
