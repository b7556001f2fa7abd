use std::cell::RefCell;
use std::rc::Rc;

use ardeck_plugin::client::{ArdeckPlugin, FrameOutcome, WebsocketState};
use ardeck_plugin::codec::encode;
use ardeck_plugin::messages::{Manifest, PluginMessage, SwitchInfo};
use ardeck_plugin::registry::Handler;
use ardeck_plugin::wire::DecodeError;

struct ActionRecorder {
    succeeds: bool,
    log: Rc<RefCell<Vec<SwitchInfo>>>,
}

impl Handler for ActionRecorder {
    type Payload = SwitchInfo;

    fn handle(&self, data: &SwitchInfo) -> bool {
        self.log.borrow_mut().push(data.clone());
        self.succeeds
    }
}

struct MessageRecorder {
    log: Rc<RefCell<Vec<String>>>,
}

impl Handler for MessageRecorder {
    type Payload = PluginMessage;

    fn handle(&self, data: &PluginMessage) -> bool {
        if let PluginMessage::Message { message, .. } = data {
            self.log.borrow_mut().push(message.clone());
        }
        true
    }
}

fn manifest() -> Manifest {
    Manifest {
        name: "demo".to_string(),
        version: "0.0.1".to_string(),
        id: "P1".to_string(),
        description: None,
        author: None,
        main: "demo.exe".to_string(),
    }
}

const SUCCESS_FRAME: &str = "{\"op\":1,\"data\":{\"ardeckStudioVersion\":\"1.0.0\",\"ardeckStudioWebSocketVersion\":\"0.0.1\"}}";
const PING_FRAME: &str = "{\"op\":3,\"data\":{\"switch\":{\"switchType\":\"Digital\",\"switchId\":1,\"switchState\":1,\"timestamp\":1700000000000},\"target\":{\"pluginId\":\"P1\",\"actionId\":\"ping\"}}}";

#[test]
fn end_to_end_session() {
    let actions = Rc::new(RefCell::new(Vec::new()));
    let mut client: ArdeckPlugin<ActionRecorder, MessageRecorder> = ArdeckPlugin::new();
    assert_eq!(client.current_state(), WebsocketState::Idle);

    client.add_action_handler(
        "ping".to_string(),
        ActionRecorder {
            succeeds: true,
            log: Rc::clone(&actions),
        },
    );

    let hello = client.begin_session(&manifest());
    assert_eq!(client.current_state(), WebsocketState::Connecting);
    assert_eq!(
        encode(&hello),
        "{\"op\":0,\"data\":{\"pluginVersion\":\"0.0.1\",\"ardeckPluginWebSocketVersion\":\"0.0.1\",\"pluginId\":\"P1\"}}"
    );

    let outcome = client.on_frame(SUCCESS_FRAME);
    assert!(matches!(outcome, FrameOutcome::Established));
    assert_eq!(client.current_state(), WebsocketState::Connected);
    assert_eq!(client.reported_studio_version(), Some("1.0.0".to_string()));
    assert_eq!(client.reported_socket_version(), Some("0.0.1".to_string()));

    let outcome = client.on_frame(PING_FRAME);
    match outcome {
        FrameOutcome::ActionRouted(res) => assert_eq!(res, vec![(0, true)]),
        other => panic!("unexpected outcome: {:?}", outcome_name(&other)),
    }
    let seen = actions.borrow();
    assert_eq!(seen.len(), 1);
    assert_eq!(seen[0].switch_id, 1);
    assert_eq!(seen[0].switch_state, 1);
    assert_eq!(seen[0].timestamp, 1700000000000);
}

fn outcome_name(o: &FrameOutcome) -> &'static str {
    match o {
        FrameOutcome::Established => "Established",
        FrameOutcome::MessageRouted(_) => "MessageRouted",
        FrameOutcome::ActionRouted(_) => "ActionRouted",
        FrameOutcome::HelloIgnored => "HelloIgnored",
        FrameOutcome::Rejected(_) => "Rejected",
    }
}

#[test]
fn rejected_frame_does_not_poison_the_session() {
    let actions = Rc::new(RefCell::new(Vec::new()));
    let mut client: ArdeckPlugin<ActionRecorder, MessageRecorder> = ArdeckPlugin::new();
    client.add_action_handler(
        "ping".to_string(),
        ActionRecorder {
            succeeds: true,
            log: Rc::clone(&actions),
        },
    );
    client.begin_session(&manifest());
    client.on_frame(SUCCESS_FRAME);

    let outcome = client.on_frame("garbage that is no frame");
    assert!(matches!(
        outcome,
        FrameOutcome::Rejected(DecodeError::Malformed)
    ));
    assert_eq!(client.current_state(), WebsocketState::Connected);

    let outcome = client.on_frame(PING_FRAME);
    assert!(matches!(outcome, FrameOutcome::ActionRouted(_)));
    assert_eq!(actions.borrow().len(), 1);
}

#[test]
fn failing_handler_stops_neither_sibling_nor_loop() {
    let actions = Rc::new(RefCell::new(Vec::new()));
    let mut client: ArdeckPlugin<ActionRecorder, MessageRecorder> = ArdeckPlugin::new();
    client.add_action_handler(
        "ping".to_string(),
        ActionRecorder {
            succeeds: false,
            log: Rc::clone(&actions),
        },
    );
    client.add_action_handler(
        "ping".to_string(),
        ActionRecorder {
            succeeds: true,
            log: Rc::clone(&actions),
        },
    );
    client.begin_session(&manifest());
    client.on_frame(SUCCESS_FRAME);

    let outcome = client.on_frame(PING_FRAME);
    match outcome {
        FrameOutcome::ActionRouted(res) => assert_eq!(res, vec![(0, false), (1, true)]),
        _ => panic!("expected an action to be routed"),
    }
    assert_eq!(actions.borrow().len(), 2);

    let outcome = client.on_frame(PING_FRAME);
    assert!(matches!(outcome, FrameOutcome::ActionRouted(_)));
    assert_eq!(actions.borrow().len(), 4);
}

#[test]
fn messages_are_routed_by_message_id() {
    let messages = Rc::new(RefCell::new(Vec::new()));
    let mut client: ArdeckPlugin<ActionRecorder, MessageRecorder> = ArdeckPlugin::new();
    client.add_message_handler(
        "log".to_string(),
        MessageRecorder {
            log: Rc::clone(&messages),
        },
    );
    client.begin_session(&manifest());

    let frame = "{\"op\":2,\"data\":{\"messageId\":\"log\",\"message\":\"hello there\"}}";
    let outcome = client.on_frame(frame);
    assert!(matches!(outcome, FrameOutcome::MessageRouted(_)));
    assert_eq!(messages.borrow().as_slice(), ["hello there"]);

    let frame = "{\"op\":2,\"data\":{\"messageId\":\"error\",\"message\":\"nope\"}}";
    let outcome = client.on_frame(frame);
    match outcome {
        FrameOutcome::MessageRouted(res) => assert!(res.is_empty()),
        _ => panic!("expected a message to be routed"),
    }
    assert_eq!(messages.borrow().len(), 1);
}

#[test]
fn inbound_hello_is_ignored() {
    let mut client: ArdeckPlugin<ActionRecorder, MessageRecorder> = ArdeckPlugin::new();
    client.begin_session(&manifest());
    let frame = "{\"op\":0,\"data\":{\"pluginVersion\":\"1\",\"ardeckPluginWebSocketVersion\":\"1\",\"pluginId\":\"x\"}}";
    assert!(matches!(client.on_frame(frame), FrameOutcome::HelloIgnored));
    assert_eq!(client.current_state(), WebsocketState::Connecting);
}

#[test]
fn fresh_client_knows_no_versions() {
    let client: ArdeckPlugin<ActionRecorder, MessageRecorder> = ArdeckPlugin::new();
    assert_eq!(client.current_state(), WebsocketState::Idle);
    assert_eq!(client.reported_studio_version(), None);
    assert_eq!(client.reported_socket_version(), None);
}

#[test]
fn connection_outcomes_move_the_state() {
    let mut client: ArdeckPlugin<ActionRecorder, MessageRecorder> = ArdeckPlugin::new();
    client.begin_session(&manifest());
    client.connection_closed();
    assert_eq!(client.current_state(), WebsocketState::Disconnected);
    client.connection_failed();
    assert_eq!(client.current_state(), WebsocketState::Error);
}
