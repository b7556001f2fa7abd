use ardeck_plugin::codec::{decode, encode};
use ardeck_plugin::messages::{Action, ActionTarget, PluginMessage, SwitchInfo, SwitchType};
use ardeck_plugin::wire::DecodeError;

fn hello(pv: &str, wv: &str, id: &str) -> PluginMessage {
    PluginMessage::Hello {
        plugin_version: pv.to_string(),
        ardeck_plugin_web_socket_version: wv.to_string(),
        plugin_id: id.to_string(),
    }
}

fn action(st: SwitchType, sid: u8, sst: u16, ts: i64, pid: &str, aid: &str) -> PluginMessage {
    PluginMessage::Action(Action {
        switch: SwitchInfo {
            switch_type: st,
            switch_id: sid,
            switch_state: sst,
            timestamp: ts,
        },
        target: ActionTarget {
            plugin_id: pid.to_string(),
            action_id: aid.to_string(),
        },
    })
}

#[test]
fn round_trip_hello() {
    let m = hello("0.0.1", "0.0.1", "P1");
    assert_eq!(decode(&encode(&m)), Ok(m));
}

#[test]
fn round_trip_success() {
    let m = PluginMessage::Success {
        ardeck_studio_version: "1.0.0".to_string(),
        ardeck_studio_web_socket_version: "0.0.1".to_string(),
    };
    assert_eq!(decode(&encode(&m)), Ok(m));
}

#[test]
fn round_trip_message() {
    let m = PluginMessage::Message {
        message_id: "log".to_string(),
        message: "plugin started".to_string(),
    };
    assert_eq!(decode(&encode(&m)), Ok(m));
}

#[test]
fn round_trip_action() {
    let m = action(SwitchType::Analog, 255, 65535, -1, "P1", "dial");
    assert_eq!(decode(&encode(&m)), Ok(m));
}

#[test]
fn round_trip_awkward_strings() {
    let awkward = "quote \" backslash \\ newline \n tab \t bell \u{7} null \u{0} accent é kana ㋐";
    let m = PluginMessage::Message {
        message_id: "error".to_string(),
        message: awkward.to_string(),
    };
    assert_eq!(decode(&encode(&m)), Ok(m));
}

#[test]
fn round_trip_extreme_timestamps() {
    for ts in [i64::MIN, i64::MIN + 1, -1, 0, 1, i64::MAX] {
        let m = action(SwitchType::Digital, 0, 0, ts, "p", "a");
        assert_eq!(decode(&encode(&m)), Ok(m));
    }
}

#[test]
fn hello_encodes_canonically() {
    let m = hello("0.0.1", "0.0.1", "P1");
    assert_eq!(
        encode(&m),
        "{\"op\":0,\"data\":{\"pluginVersion\":\"0.0.1\",\"ardeckPluginWebSocketVersion\":\"0.0.1\",\"pluginId\":\"P1\"}}"
    );
}

#[test]
fn success_decodes_from_studio_text() {
    let text = "{\"op\":1,\"data\":{\"ardeckStudioVersion\":\"1.0.0\",\"ardeckStudioWebSocketVersion\":\"0.0.1\"}}";
    let m = PluginMessage::Success {
        ardeck_studio_version: "1.0.0".to_string(),
        ardeck_studio_web_socket_version: "0.0.1".to_string(),
    };
    assert_eq!(decode(text), Ok(m));
}

#[test]
fn action_decodes_from_studio_text() {
    let text = "{\"op\":3,\"data\":{\"switch\":{\"switchType\":\"Digital\",\"switchId\":1,\"switchState\":1,\"timestamp\":1700000000000},\"target\":{\"pluginId\":\"P1\",\"actionId\":\"ping\"}}}";
    let m = action(SwitchType::Digital, 1, 1, 1700000000000, "P1", "ping");
    assert_eq!(decode(text), Ok(m));
}

#[test]
fn quoted_opcode_is_accepted() {
    let text = "{\"op\":\"1\",\"data\":{\"ardeckStudioVersion\":\"1.0.0\",\"ardeckStudioWebSocketVersion\":\"0.0.1\"}}";
    assert!(matches!(decode(text), Ok(PluginMessage::Success { .. })));
}

#[test]
fn named_escapes_are_accepted() {
    let text = "{\"op\":2,\"data\":{\"messageId\":\"log\",\"message\":\"a\\n\\t\\\"b\\\"\\u0007\\/c\"}}";
    let m = PluginMessage::Message {
        message_id: "log".to_string(),
        message: "a\n\t\"b\"\u{7}/c".to_string(),
    };
    assert_eq!(decode(text), Ok(m));
}

#[test]
fn empty_action_payload_is_schema_mismatch() {
    assert_eq!(
        decode("{\"op\":3,\"data\":{}}"),
        Err(DecodeError::SchemaMismatch)
    );
}

#[test]
fn action_payload_missing_target_is_schema_mismatch() {
    let text = "{\"op\":3,\"data\":{\"switch\":{\"switchType\":\"Digital\",\"switchId\":1,\"switchState\":1,\"timestamp\":0}}}";
    assert_eq!(decode(text), Err(DecodeError::SchemaMismatch));
}

#[test]
fn wrong_field_type_is_schema_mismatch() {
    let text = "{\"op\":2,\"data\":{\"messageId\":7,\"message\":\"x\"}}";
    assert_eq!(decode(text), Err(DecodeError::SchemaMismatch));
}

#[test]
fn out_of_range_switch_id_is_schema_mismatch() {
    let text = "{\"op\":3,\"data\":{\"switch\":{\"switchType\":\"Digital\",\"switchId\":256,\"switchState\":1,\"timestamp\":0},\"target\":{\"pluginId\":\"p\",\"actionId\":\"a\"}}}";
    assert_eq!(decode(text), Err(DecodeError::SchemaMismatch));
}

#[test]
fn unknown_opcode_is_reported() {
    assert_eq!(
        decode("{\"op\":7,\"data\":{}}"),
        Err(DecodeError::UnknownOpcode)
    );
    assert_eq!(
        decode("{\"op\":\"9\",\"data\":{}}"),
        Err(DecodeError::UnknownOpcode)
    );
}

#[test]
fn malformed_text_is_reported() {
    assert_eq!(decode(""), Err(DecodeError::Malformed));
    assert_eq!(decode("not a frame"), Err(DecodeError::Malformed));
    assert_eq!(decode("{\"op\":2"), Err(DecodeError::Malformed));
    assert_eq!(
        decode("{\"op\":2,\"data\":{\"messageId\":\"log\",\"message\":\"x\"}} trailing"),
        Err(DecodeError::Malformed)
    );
}
