//! The typed message envelope exchanged with the studio, and the plain data
//! carried inside it.

use vstd::prelude::*;

verus! {

/// Protocol opcode: the tag that selects one of the four message shapes.
#[derive(Clone, Copy, Debug, PartialEq, Eq, Structural)]
pub enum PluginOp {
    Hello,
    Success,
    Message,
    Action,
}

impl PluginOp {
    /// The numeric value this opcode carries on the wire.
    pub open spec fn spec_code(self) -> int {
        match self {
            PluginOp::Hello => 0,
            PluginOp::Success => 1,
            PluginOp::Message => 2,
            PluginOp::Action => 3,
        }
    }

    /// Numeric wire value of this opcode.
    pub fn code(self) -> (r: u8)
        ensures
            r as int == self.spec_code(),
    {
        match self {
            PluginOp::Hello => 0,
            PluginOp::Success => 1,
            PluginOp::Message => 2,
            PluginOp::Action => 3,
        }
    }
}

/// Kind of physical input on the hardware managed by the studio.
///
/// The protocol also defines an `Unknown` kind, but the studio never
/// transmits it to plugins, so it has no representation here.
#[derive(Clone, Copy, Debug, PartialEq, Eq, Structural)]
pub enum SwitchType {
    Digital,
    Analog,
}

/// Identifier of a switch, unique within one device.
pub type SwitchId = u8;

/// Snapshot of a physical input at a point in time.
#[derive(Clone, Debug, PartialEq, Eq, Structural)]
pub struct SwitchInfo {
    pub switch_type: SwitchType,
    pub switch_id: SwitchId,
    pub switch_state: u16,
    pub timestamp: i64,
}

/// Destination of an action: the owning plugin and the behavior to invoke.
#[derive(Clone, Debug)]
pub struct ActionTarget {
    pub plugin_id: String,
    pub action_id: String,
}

/// Pairing of a switch event with the action it maps to.
#[derive(Clone, Debug)]
pub struct Action {
    pub switch: SwitchInfo,
    pub target: ActionTarget,
}

/// The tagged message envelope: exactly one variant is active, selected by
/// the opcode on the wire (0: Hello, 1: Success, 2: Message, 3: Action).
#[derive(Clone, Debug)]
pub enum PluginMessage {
    Hello {
        plugin_version: String,
        ardeck_plugin_web_socket_version: String,
        plugin_id: String,
    },
    Success {
        ardeck_studio_version: String,
        ardeck_studio_web_socket_version: String,
    },
    Message {
        message_id: String,
        message: String,
    },
    Action(Action),
}

impl PluginMessage {
    /// The opcode that selects this message's shape.
    pub open spec fn spec_op(self) -> PluginOp {
        match self {
            PluginMessage::Hello { .. } => PluginOp::Hello,
            PluginMessage::Success { .. } => PluginOp::Success,
            PluginMessage::Message { .. } => PluginOp::Message,
            PluginMessage::Action(..) => PluginOp::Action,
        }
    }

    /// Opcode of this message.
    pub fn op(&self) -> (r: PluginOp)
        ensures
            r == self.spec_op(),
    {
        match self {
            PluginMessage::Hello { .. } => PluginOp::Hello,
            PluginMessage::Success { .. } => PluginOp::Success,
            PluginMessage::Message { .. } => PluginOp::Message,
            PluginMessage::Action(..) => PluginOp::Action,
        }
    }
}

impl PartialEq for ActionTarget {
    fn eq(&self, other: &Self) -> (r: bool) {
        self.plugin_id == other.plugin_id && self.action_id == other.action_id
    }
}

impl vstd::std_specs::cmp::PartialEqSpecImpl for ActionTarget {
    open spec fn obeys_eq_spec() -> bool {
        true
    }

    open spec fn eq_spec(&self, other: &Self) -> bool {
        self.plugin_id@ == other.plugin_id@ && self.action_id@ == other.action_id@
    }
}

impl PartialEq for Action {
    fn eq(&self, other: &Self) -> (r: bool) {
        self.switch == other.switch && self.target == other.target
    }
}

impl vstd::std_specs::cmp::PartialEqSpecImpl for Action {
    open spec fn obeys_eq_spec() -> bool {
        true
    }

    open spec fn eq_spec(&self, other: &Self) -> bool {
        self.switch == other.switch && self.target.plugin_id@ == other.target.plugin_id@
            && self.target.action_id@ == other.target.action_id@
    }
}

/// Mathematical model of a message: the same shape with every string read
/// as its character sequence.  Contracts and the wire codec speak in terms
/// of this view.
pub enum MessageView {
    Hello {
        plugin_version: Seq<char>,
        ardeck_plugin_web_socket_version: Seq<char>,
        plugin_id: Seq<char>,
    },
    Success {
        ardeck_studio_version: Seq<char>,
        ardeck_studio_web_socket_version: Seq<char>,
    },
    Message {
        message_id: Seq<char>,
        message: Seq<char>,
    },
    Action {
        switch: SwitchInfo,
        plugin_id: Seq<char>,
        action_id: Seq<char>,
    },
}

impl View for PluginMessage {
    type V = MessageView;

    open spec fn view(&self) -> MessageView {
        match self {
            PluginMessage::Hello { plugin_version, ardeck_plugin_web_socket_version, plugin_id } => MessageView::Hello {
                plugin_version: plugin_version@,
                ardeck_plugin_web_socket_version: ardeck_plugin_web_socket_version@,
                plugin_id: plugin_id@,
            },
            PluginMessage::Success { ardeck_studio_version, ardeck_studio_web_socket_version } => MessageView::Success {
                ardeck_studio_version: ardeck_studio_version@,
                ardeck_studio_web_socket_version: ardeck_studio_web_socket_version@,
            },
            PluginMessage::Message { message_id, message } => MessageView::Message {
                message_id: message_id@,
                message: message@,
            },
            PluginMessage::Action(a) => MessageView::Action {
                switch: a.switch,
                plugin_id: a.target.plugin_id@,
                action_id: a.target.action_id@,
            },
        }
    }
}

/// The envelope's tagged union under the name one protocol revision
/// exposes it by.
pub type PluginMessageData = PluginMessage;

impl PartialEq for PluginMessage {
    fn eq(&self, other: &Self) -> (r: bool) {
        match (self, other) {
            (
                PluginMessage::Hello { plugin_version, ardeck_plugin_web_socket_version, plugin_id },
                PluginMessage::Hello {
                    plugin_version: pv2,
                    ardeck_plugin_web_socket_version: wv2,
                    plugin_id: id2,
                },
            ) => *plugin_version == *pv2 && *ardeck_plugin_web_socket_version == *wv2
                && *plugin_id == *id2,
            (
                PluginMessage::Success { ardeck_studio_version, ardeck_studio_web_socket_version },
                PluginMessage::Success { ardeck_studio_version: sv2, ardeck_studio_web_socket_version: wv2 },
            ) => *ardeck_studio_version == *sv2 && *ardeck_studio_web_socket_version == *wv2,
            (
                PluginMessage::Message { message_id, message },
                PluginMessage::Message { message_id: mid2, message: msg2 },
            ) => *message_id == *mid2 && *message == *msg2,
            (PluginMessage::Action(a), PluginMessage::Action(b)) => *a == *b,
            _ => false,
        }
    }
}

impl vstd::std_specs::cmp::PartialEqSpecImpl for PluginMessage {
    open spec fn obeys_eq_spec() -> bool {
        true
    }

    open spec fn eq_spec(&self, other: &Self) -> bool {
        self@ == other@
    }
}

/// Envelope paired with its opcode, as some studio revisions exchange it.
#[derive(Clone, Debug)]
pub struct PluginMessageContainer {
    pub op: PluginOp,
    pub data: PluginMessage,
}

/// Binding of one switch to one plugin action, as stored by the studio.
#[derive(Clone, Debug)]
pub struct ActionMap {
    pub switch_type: SwitchType,
    pub switch_id: SwitchId,
    pub plugin_id: String,
    pub action_id: String,
}

/// Identity of the plugin, read once at startup from its manifest file.
///
/// Supplies `plugin_id` and `plugin_version` for the Hello handshake.
#[derive(Clone, Debug)]
pub struct Manifest {
    pub name: String,
    pub version: String,
    pub id: String,
    pub description: Option<String>,
    pub author: Option<String>,
    pub main: String,
}

} // verus!
