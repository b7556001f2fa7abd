//! The message codec: the canonical text wire form of a [`PluginMessage`]
//! and its strict decoder.
//!
//! The envelope is `{"op":<opcode>,"data":<payload>}` with a numeric
//! opcode; the decoder also accepts the opcode between double quotes, as
//! some studio revisions emit it.  Payload fields stand in a fixed order
//! with camel-cased names, the layout the studio's own encoder produces.

use vstd::prelude::*;
use vstd::string::StringExecFns;

use crate::messages::Action;
use crate::messages::ActionTarget;
use crate::messages::MessageView;
use crate::messages::PluginMessage;
use crate::messages::SwitchInfo;
use crate::messages::SwitchType;
use crate::wire::DecodeError;
use crate::wire::dec_digit;
use crate::wire::e_inum;
use crate::wire::e_jstring;
use crate::wire::e_lit;
use crate::wire::e_unum;
use crate::wire::push_dec_i64;
use crate::wire::push_dec_u64;
use crate::wire::push_jstr;
use crate::wire::to_chars;
use crate::wire::dec_int;
use crate::wire::dec_nat;
use crate::wire::is_digit;
use crate::wire::jstr;
use crate::wire::lemma_jstring_roundtrip;
use crate::wire::lemma_p_inum_roundtrip;
use crate::wire::lemma_p_lit_roundtrip;
use crate::wire::lemma_p_unum_roundtrip;
use crate::wire::p_inum;
use crate::wire::p_jstring;
use crate::wire::p_lit;
use crate::wire::p_unum;

verus! {

// ---------------------------------------------------------------------------
// Spec encoder
// ---------------------------------------------------------------------------

/// The numeric opcode of a message shape.
pub open spec fn op_code(m: MessageView) -> nat {
    match m {
        MessageView::Hello { .. } => 0,
        MessageView::Success { .. } => 1,
        MessageView::Message { .. } => 2,
        MessageView::Action { .. } => 3,
    }
}

/// Wire text of a switch kind.
pub open spec fn switch_type_text(t: SwitchType) -> Seq<char> {
    match t {
        SwitchType::Digital => "\"Digital\""@,
        SwitchType::Analog => "\"Analog\""@,
    }
}

/// Wire text of a switch snapshot.
pub open spec fn enc_switch(s: SwitchInfo) -> Seq<char> {
    "{\"switchType\":"@ + switch_type_text(s.switch_type) + ",\"switchId\":"@ + dec_nat(
        s.switch_id as nat,
    ) + ",\"switchState\":"@ + dec_nat(s.switch_state as nat) + ",\"timestamp\":"@ + dec_int(
        s.timestamp as int,
    ) + "}"@
}

/// Wire text of the payload object of a message.
pub open spec fn enc_payload(m: MessageView) -> Seq<char> {
    match m {
        MessageView::Hello { plugin_version, ardeck_plugin_web_socket_version, plugin_id } => {
            "{\"pluginVersion\":"@ + jstr(plugin_version) + ",\"ardeckPluginWebSocketVersion\":"@
                + jstr(ardeck_plugin_web_socket_version) + ",\"pluginId\":"@ + jstr(plugin_id)
                + "}"@
        },
        MessageView::Success { ardeck_studio_version, ardeck_studio_web_socket_version } => {
            "{\"ardeckStudioVersion\":"@ + jstr(ardeck_studio_version)
                + ",\"ardeckStudioWebSocketVersion\":"@ + jstr(ardeck_studio_web_socket_version)
                + "}"@
        },
        MessageView::Message { message_id, message } => {
            "{\"messageId\":"@ + jstr(message_id) + ",\"message\":"@ + jstr(message) + "}"@
        },
        MessageView::Action { switch, plugin_id, action_id } => {
            "{\"switch\":"@ + enc_switch(switch) + ",\"target\":{\"pluginId\":"@ + jstr(plugin_id)
                + ",\"actionId\":"@ + jstr(action_id) + "}}"@
        },
    }
}

/// The canonical wire text of a message.
pub open spec fn enc_msg(m: MessageView) -> Seq<char> {
    "{\"op\":"@ + dec_nat(op_code(m)) + ",\"data\":"@ + enc_payload(m) + "}"@
}

// ---------------------------------------------------------------------------
// Spec decoder
// ---------------------------------------------------------------------------

/// Parse the opcode value: digits, either bare or between double quotes.
/// The value must fit 32 bits; a longer run of digits is malformed.
pub open spec fn p_op(s: Seq<char>) -> Option<(nat, Seq<char>)> {
    if s.len() > 0 && s[0] == '"' {
        match p_unum(s.skip(1), 0xFFFF_FFFF as nat) {
            Some((v, r)) => if r.len() > 0 && r[0] == '"' {
                Some((v, r.skip(1)))
            } else {
                None
            },
            None => None,
        }
    } else {
        p_unum(s, 0xFFFF_FFFF as nat)
    }
}

/// Parse a switch kind.
pub open spec fn p_switch_type(s: Seq<char>) -> Option<(SwitchType, Seq<char>)> {
    match p_lit(s, "\"Digital\""@) {
        Some(r) => Some((SwitchType::Digital, r)),
        None => match p_lit(s, "\"Analog\""@) {
            Some(r) => Some((SwitchType::Analog, r)),
            None => None,
        },
    }
}

/// Parse a switch snapshot object.
pub open spec fn dec_switch(s: Seq<char>) -> Option<(SwitchInfo, Seq<char>)> {
    match p_lit(s, "{\"switchType\":"@) {
        None => None,
        Some(r) => match p_switch_type(r) {
            None => None,
            Some((st, r)) => match p_lit(r, ",\"switchId\":"@) {
                None => None,
                Some(r) => match p_unum(r, 255) {
                    None => None,
                    Some((sid, r)) => match p_lit(r, ",\"switchState\":"@) {
                        None => None,
                        Some(r) => match p_unum(r, 65535) {
                            None => None,
                            Some((sst, r)) => match p_lit(r, ",\"timestamp\":"@) {
                                None => None,
                                Some(r) => match p_inum(
                                    r,
                                    0x7FFF_FFFF_FFFF_FFFF as nat,
                                    0x8000_0000_0000_0000 as nat,
                                ) {
                                    None => None,
                                    Some((ts, r)) => match p_lit(r, "}"@) {
                                        None => None,
                                        Some(r) => Some(
                                            (
                                                SwitchInfo {
                                                    switch_type: st,
                                                    switch_id: sid as u8,
                                                    switch_state: sst as u16,
                                                    timestamp: ts as i64,
                                                },
                                                r,
                                            ),
                                        ),
                                    },
                                },
                            },
                        },
                    },
                },
            },
        },
    }
}

/// Parse the payload object for a given opcode.
pub open spec fn dec_payload(op: nat, s: Seq<char>) -> Option<(MessageView, Seq<char>)> {
    if op == 0 {
        match p_lit(s, "{\"pluginVersion\":"@) {
            None => None,
            Some(r) => match p_jstring(r) {
                None => None,
                Some((pv, r)) => match p_lit(r, ",\"ardeckPluginWebSocketVersion\":"@) {
                    None => None,
                    Some(r) => match p_jstring(r) {
                        None => None,
                        Some((wv, r)) => match p_lit(r, ",\"pluginId\":"@) {
                            None => None,
                            Some(r) => match p_jstring(r) {
                                None => None,
                                Some((id, r)) => match p_lit(r, "}"@) {
                                    None => None,
                                    Some(r) => Some(
                                        (
                                            MessageView::Hello {
                                                plugin_version: pv,
                                                ardeck_plugin_web_socket_version: wv,
                                                plugin_id: id,
                                            },
                                            r,
                                        ),
                                    ),
                                },
                            },
                        },
                    },
                },
            },
        }
    } else if op == 1 {
        match p_lit(s, "{\"ardeckStudioVersion\":"@) {
            None => None,
            Some(r) => match p_jstring(r) {
                None => None,
                Some((sv, r)) => match p_lit(r, ",\"ardeckStudioWebSocketVersion\":"@) {
                    None => None,
                    Some(r) => match p_jstring(r) {
                        None => None,
                        Some((wv, r)) => match p_lit(r, "}"@) {
                            None => None,
                            Some(r) => Some(
                                (
                                    MessageView::Success {
                                        ardeck_studio_version: sv,
                                        ardeck_studio_web_socket_version: wv,
                                    },
                                    r,
                                ),
                            ),
                        },
                    },
                },
            },
        }
    } else if op == 2 {
        match p_lit(s, "{\"messageId\":"@) {
            None => None,
            Some(r) => match p_jstring(r) {
                None => None,
                Some((mid, r)) => match p_lit(r, ",\"message\":"@) {
                    None => None,
                    Some(r) => match p_jstring(r) {
                        None => None,
                        Some((msg, r)) => match p_lit(r, "}"@) {
                            None => None,
                            Some(r) => Some(
                                (MessageView::Message { message_id: mid, message: msg }, r),
                            ),
                        },
                    },
                },
            },
        }
    } else {
        match p_lit(s, "{\"switch\":"@) {
            None => None,
            Some(r) => match dec_switch(r) {
                None => None,
                Some((sw, r)) => match p_lit(r, ",\"target\":{\"pluginId\":"@) {
                    None => None,
                    Some(r) => match p_jstring(r) {
                        None => None,
                        Some((pid, r)) => match p_lit(r, ",\"actionId\":"@) {
                            None => None,
                            Some(r) => match p_jstring(r) {
                                None => None,
                                Some((aid, r)) => match p_lit(r, "}}"@) {
                                    None => None,
                                    Some(r) => Some(
                                        (
                                            MessageView::Action {
                                                switch: sw,
                                                plugin_id: pid,
                                                action_id: aid,
                                            },
                                            r,
                                        ),
                                    ),
                                },
                            },
                        },
                    },
                },
            },
        }
    }
}

/// Decode a whole frame of wire text into a message, or say why not.
///
/// A frame that does not carry the envelope layout is `Malformed`; an
/// opcode outside `0..=3` is an `UnknownOpcode`; a payload whose fields do
/// not fit the opcode's shape is a `SchemaMismatch`.
pub open spec fn dec_msg(s: Seq<char>) -> Result<MessageView, DecodeError> {
    match p_lit(s, "{\"op\":"@) {
        None => Err(DecodeError::Malformed),
        Some(r1) => match p_op(r1) {
            None => Err(DecodeError::Malformed),
            Some((op, r2)) => if op > 3 {
                Err(DecodeError::UnknownOpcode)
            } else {
                match p_lit(r2, ",\"data\":"@) {
                    None => Err(DecodeError::Malformed),
                    Some(r3) => match dec_payload(op, r3) {
                        None => Err(DecodeError::SchemaMismatch),
                        Some((m, r4)) => if r4 == "}"@ {
                            Ok(m)
                        } else {
                            Err(DecodeError::Malformed)
                        },
                    },
                }
            },
        },
    }
}

// ---------------------------------------------------------------------------
// Round trip: decoding the canonical text of a message yields the message.
// ---------------------------------------------------------------------------

/// A switch snapshot parses back from its canonical text.
proof fn lemma_switch_roundtrip(sw: SwitchInfo, rest: Seq<char>)
    ensures
        dec_switch(enc_switch(sw) + rest) == Some((sw, rest)),
{
    reveal_strlit(",\"switchId\":");
    reveal_strlit(",\"switchState\":");
    reveal_strlit(",\"timestamp\":");
    reveal_strlit("}");
    let l_type = "{\"switchType\":"@;
    let l_id = ",\"switchId\":"@;
    let l_state = ",\"switchState\":"@;
    let l_ts = ",\"timestamp\":"@;
    let l_close = "}"@;
    let t = switch_type_text(sw.switch_type);
    let d_id = dec_nat(sw.switch_id as nat);
    let d_state = dec_nat(sw.switch_state as nat);
    let d_ts = dec_int(sw.timestamp as int);
    let r5 = l_close + rest;
    let r4 = d_ts + r5;
    let r3 = l_ts + r4;
    let r2 = d_state + r3;
    let r1 = l_state + r2;
    let r0 = d_id + r1;
    let ra = l_id + r0;
    let rb = t + ra;
    assert(enc_switch(sw) + rest =~= l_type + rb);
    lemma_p_lit_roundtrip(l_type, rb);
    // switch kind
    match sw.switch_type {
        SwitchType::Digital => {
            lemma_p_lit_roundtrip("\"Digital\""@, ra);
        },
        SwitchType::Analog => {
            reveal_strlit("\"Digital\"");
            reveal_strlit("\"Analog\"");
            let dig = "\"Digital\""@;
            assert(dig.len() == 9);
            assert("\"Analog\""@.len() == 8);
            if dig.len() <= rb.len() {
                assert(rb.take(9)[1] == 'A');
                assert(dig[1] == 'D');
                assert(rb.take(9) != dig);
            }
            assert(p_lit(rb, dig) is None);
            lemma_p_lit_roundtrip("\"Analog\""@, ra);
        },
    }
    assert(p_switch_type(rb) == Some((sw.switch_type, ra)));
    lemma_p_lit_roundtrip(l_id, r0);
    assert(r1[0] == ',' && !is_digit(','));
    lemma_p_unum_roundtrip(sw.switch_id as nat, 255, r1);
    lemma_p_lit_roundtrip(l_state, r2);
    assert(r3[0] == ',');
    lemma_p_unum_roundtrip(sw.switch_state as nat, 65535, r3);
    lemma_p_lit_roundtrip(l_ts, r4);
    assert(r5[0] == '}' && !is_digit('}'));
    lemma_p_inum_roundtrip(
        sw.timestamp as int,
        0x7FFF_FFFF_FFFF_FFFF as nat,
        0x8000_0000_0000_0000 as nat,
        r5,
    );
    lemma_p_lit_roundtrip(l_close, rest);
    assert(dec_switch(enc_switch(sw) + rest) == Some((sw, rest)));
}

/// A payload object parses back from its canonical text, under its own
/// opcode.
#[verifier::rlimit(100)]
proof fn lemma_payload_roundtrip(m: MessageView, rest: Seq<char>)
    ensures
        dec_payload(op_code(m), enc_payload(m) + rest) == Some((m, rest)),
{
    match m {
        MessageView::Hello { plugin_version, ardeck_plugin_web_socket_version, plugin_id } => {
            let l0 = "{\"pluginVersion\":"@;
            let l1 = ",\"ardeckPluginWebSocketVersion\":"@;
            let l2 = ",\"pluginId\":"@;
            let l3 = "}"@;
            let r6 = l3 + rest;
            let r5 = jstr(plugin_id) + r6;
            let r4 = l2 + r5;
            let r3 = jstr(ardeck_plugin_web_socket_version) + r4;
            let r2 = l1 + r3;
            let r1 = jstr(plugin_version) + r2;
            assert(enc_payload(m) + rest =~= l0 + r1);
            lemma_p_lit_roundtrip(l0, r1);
            lemma_jstring_roundtrip(plugin_version, r2);
            lemma_p_lit_roundtrip(l1, r3);
            lemma_jstring_roundtrip(ardeck_plugin_web_socket_version, r4);
            lemma_p_lit_roundtrip(l2, r5);
            lemma_jstring_roundtrip(plugin_id, r6);
            lemma_p_lit_roundtrip(l3, rest);
        },
        MessageView::Success { ardeck_studio_version, ardeck_studio_web_socket_version } => {
            let l0 = "{\"ardeckStudioVersion\":"@;
            let l1 = ",\"ardeckStudioWebSocketVersion\":"@;
            let l2 = "}"@;
            let r4 = l2 + rest;
            let r3 = jstr(ardeck_studio_web_socket_version) + r4;
            let r2 = l1 + r3;
            let r1 = jstr(ardeck_studio_version) + r2;
            assert(enc_payload(m) + rest =~= l0 + r1);
            lemma_p_lit_roundtrip(l0, r1);
            lemma_jstring_roundtrip(ardeck_studio_version, r2);
            lemma_p_lit_roundtrip(l1, r3);
            lemma_jstring_roundtrip(ardeck_studio_web_socket_version, r4);
            lemma_p_lit_roundtrip(l2, rest);
        },
        MessageView::Message { message_id, message } => {
            let l0 = "{\"messageId\":"@;
            let l1 = ",\"message\":"@;
            let l2 = "}"@;
            let r4 = l2 + rest;
            let r3 = jstr(message) + r4;
            let r2 = l1 + r3;
            let r1 = jstr(message_id) + r2;
            assert(enc_payload(m) + rest =~= l0 + r1);
            lemma_p_lit_roundtrip(l0, r1);
            lemma_jstring_roundtrip(message_id, r2);
            lemma_p_lit_roundtrip(l1, r3);
            lemma_jstring_roundtrip(message, r4);
            lemma_p_lit_roundtrip(l2, rest);
        },
        MessageView::Action { switch, plugin_id, action_id } => {
            let l0 = "{\"switch\":"@;
            let l1 = ",\"target\":{\"pluginId\":"@;
            let l2 = ",\"actionId\":"@;
            let l3 = "}}"@;
            let r6 = l3 + rest;
            let r5 = jstr(action_id) + r6;
            let r4 = l2 + r5;
            let r3 = jstr(plugin_id) + r4;
            let r2 = l1 + r3;
            let r1 = enc_switch(switch) + r2;
            assert(enc_payload(m) + rest =~= l0 + r1);
            lemma_p_lit_roundtrip(l0, r1);
            lemma_switch_roundtrip(switch, r2);
            lemma_p_lit_roundtrip(l1, r3);
            lemma_jstring_roundtrip(plugin_id, r4);
            lemma_p_lit_roundtrip(l2, r5);
            lemma_jstring_roundtrip(action_id, r6);
            lemma_p_lit_roundtrip(l3, rest);
        },
    }
}

// ---------------------------------------------------------------------------
// Executable encoder
// ---------------------------------------------------------------------------

/// Encode a message into its canonical wire text.  Always succeeds.
#[verifier::rlimit(100)]
pub fn encode(m: &PluginMessage) -> (r: String)
    ensures
        r@ == enc_msg(m@),
{
    let mut out = String::new();
    out.append("{\"op\":");
    let code = m.op().code();
    proof {
        assert(code as nat == op_code(m@));
    }
    push_dec_u64(&mut out, code as u64);
    out.append(",\"data\":");
    let ghost pre = out@;
    match m {
        PluginMessage::Hello { plugin_version, ardeck_plugin_web_socket_version, plugin_id } => {
            out.append("{\"pluginVersion\":");
            push_jstr(&mut out, plugin_version.as_str());
            out.append(",\"ardeckPluginWebSocketVersion\":");
            push_jstr(&mut out, ardeck_plugin_web_socket_version.as_str());
            out.append(",\"pluginId\":");
            push_jstr(&mut out, plugin_id.as_str());
            out.append("}");
            proof {
                assert(out@ =~= pre + enc_payload(m@));
            }
        },
        PluginMessage::Success { ardeck_studio_version, ardeck_studio_web_socket_version } => {
            out.append("{\"ardeckStudioVersion\":");
            push_jstr(&mut out, ardeck_studio_version.as_str());
            out.append(",\"ardeckStudioWebSocketVersion\":");
            push_jstr(&mut out, ardeck_studio_web_socket_version.as_str());
            out.append("}");
            proof {
                assert(out@ =~= pre + enc_payload(m@));
            }
        },
        PluginMessage::Message { message_id, message } => {
            out.append("{\"messageId\":");
            push_jstr(&mut out, message_id.as_str());
            out.append(",\"message\":");
            push_jstr(&mut out, message.as_str());
            out.append("}");
            proof {
                assert(out@ =~= pre + enc_payload(m@));
            }
        },
        PluginMessage::Action(a) => {
            out.append("{\"switch\":");
            out.append("{\"switchType\":");
            match a.switch.switch_type {
                SwitchType::Digital => out.append("\"Digital\""),
                SwitchType::Analog => out.append("\"Analog\""),
            }
            out.append(",\"switchId\":");
            push_dec_u64(&mut out, a.switch.switch_id as u64);
            out.append(",\"switchState\":");
            push_dec_u64(&mut out, a.switch.switch_state as u64);
            out.append(",\"timestamp\":");
            push_dec_i64(&mut out, a.switch.timestamp);
            out.append("}");
            proof {
                assert(out@ =~= pre + "{\"switch\":"@ + enc_switch(a.switch));
            }
            out.append(",\"target\":{\"pluginId\":");
            push_jstr(&mut out, a.target.plugin_id.as_str());
            out.append(",\"actionId\":");
            push_jstr(&mut out, a.target.action_id.as_str());
            out.append("}}");
            proof {
                assert(out@ =~= pre + enc_payload(m@));
            }
        },
    }
    out.append("}");
    proof {
        assert(out@ =~= enc_msg(m@));
    }
    out
}

// ---------------------------------------------------------------------------
// Executable decoder
// ---------------------------------------------------------------------------

/// Parse the opcode value at position `i`.
fn e_op(v: &Vec<char>, i: usize) -> (r: Option<(u64, usize)>)
    requires
        i <= v@.len(),
    ensures
        match r {
            Some(p) => i <= p.1 <= v@.len() && p_op(v@.skip(i as int)) == Some(
                (p.0 as nat, v@.skip(p.1 as int)),
            ),
            None => p_op(v@.skip(i as int)) is None,
        },
{
    if i < v.len() && v[i] == '"' {
        proof {
            assert(v@.skip(i as int)[0] == '"');
            assert(v@.skip(i as int).skip(1) =~= v@.skip(i + 1));
        }
        match e_unum(v, i + 1, 0xFFFF_FFFF) {
            Some((x, j)) => {
                if j < v.len() {
                    proof {
                        assert(v@.skip(j as int)[0] == v@[j as int]);
                    }
                    if v[j] == '"' {
                        proof {
                            assert(v@.skip(j as int).skip(1) =~= v@.skip(j + 1));
                        }
                        Some((x, j + 1))
                    } else {
                        None
                    }
                } else {
                    None
                }
            },
            None => None,
        }
    } else {
        proof {
            if i < v@.len() {
                assert(v@.skip(i as int)[0] == v@[i as int]);
            }
        }
        e_unum(v, i, 0xFFFF_FFFF)
    }
}

/// Parse a switch kind at position `i`.
fn e_switch_type(v: &Vec<char>, i: usize) -> (r: Option<(SwitchType, usize)>)
    requires
        i <= v@.len(),
    ensures
        match r {
            Some(p) => i <= p.1 <= v@.len() && p_switch_type(v@.skip(i as int)) == Some(
                (p.0, v@.skip(p.1 as int)),
            ),
            None => p_switch_type(v@.skip(i as int)) is None,
        },
{
    match e_lit(v, i, "\"Digital\"") {
        Some(j) => Some((SwitchType::Digital, j)),
        None => match e_lit(v, i, "\"Analog\"") {
            Some(j) => Some((SwitchType::Analog, j)),
            None => None,
        },
    }
}

/// Parse a switch snapshot object at position `i`.
fn e_switch(v: &Vec<char>, i: usize) -> (r: Option<(SwitchInfo, usize)>)
    requires
        i <= v@.len(),
    ensures
        match r {
            Some(p) => i <= p.1 <= v@.len() && dec_switch(v@.skip(i as int)) == Some(
                (p.0, v@.skip(p.1 as int)),
            ),
            None => dec_switch(v@.skip(i as int)) is None,
        },
{
    let i1 = match e_lit(v, i, "{\"switchType\":") {
        Some(j) => j,
        None => { return None; },
    };
    let (st, i2) = match e_switch_type(v, i1) {
        Some(p) => p,
        None => { return None; },
    };
    let i3 = match e_lit(v, i2, ",\"switchId\":") {
        Some(j) => j,
        None => { return None; },
    };
    let (sid, i4) = match e_unum(v, i3, 255) {
        Some(p) => p,
        None => { return None; },
    };
    let i5 = match e_lit(v, i4, ",\"switchState\":") {
        Some(j) => j,
        None => { return None; },
    };
    let (sst, i6) = match e_unum(v, i5, 65535) {
        Some(p) => p,
        None => { return None; },
    };
    let i7 = match e_lit(v, i6, ",\"timestamp\":") {
        Some(j) => j,
        None => { return None; },
    };
    let (ts, i8) = match e_inum(v, i7, 0x7FFF_FFFF_FFFF_FFFF, 0x8000_0000_0000_0000) {
        Some(p) => p,
        None => { return None; },
    };
    let i9 = match e_lit(v, i8, "}") {
        Some(j) => j,
        None => { return None; },
    };
    Some(
        (
            SwitchInfo {
                switch_type: st,
                switch_id: sid as u8,
                switch_state: sst as u16,
                timestamp: ts,
            },
            i9,
        ),
    )
}

/// Parse the payload object for opcode `op` at position `i`.
#[verifier::rlimit(100)]
fn e_payload(v: &Vec<char>, op: u64, i: usize) -> (r: Option<(PluginMessage, usize)>)
    requires
        i <= v@.len(),
        op <= 3,
    ensures
        match r {
            Some(p) => i <= p.1 <= v@.len() && dec_payload(op as nat, v@.skip(i as int)) == Some(
                (p.0@, v@.skip(p.1 as int)),
            ),
            None => dec_payload(op as nat, v@.skip(i as int)) is None,
        },
{
    if op == 0 {
        let i1 = match e_lit(v, i, "{\"pluginVersion\":") {
            Some(j) => j,
            None => { return None; },
        };
        let (pv, i2) = match e_jstring(v, i1) {
            Some(p) => p,
            None => { return None; },
        };
        let i3 = match e_lit(v, i2, ",\"ardeckPluginWebSocketVersion\":") {
            Some(j) => j,
            None => { return None; },
        };
        let (wv, i4) = match e_jstring(v, i3) {
            Some(p) => p,
            None => { return None; },
        };
        let i5 = match e_lit(v, i4, ",\"pluginId\":") {
            Some(j) => j,
            None => { return None; },
        };
        let (id, i6) = match e_jstring(v, i5) {
            Some(p) => p,
            None => { return None; },
        };
        let i7 = match e_lit(v, i6, "}") {
            Some(j) => j,
            None => { return None; },
        };
        Some(
            (
                PluginMessage::Hello {
                    plugin_version: pv,
                    ardeck_plugin_web_socket_version: wv,
                    plugin_id: id,
                },
                i7,
            ),
        )
    } else if op == 1 {
        let i1 = match e_lit(v, i, "{\"ardeckStudioVersion\":") {
            Some(j) => j,
            None => { return None; },
        };
        let (sv, i2) = match e_jstring(v, i1) {
            Some(p) => p,
            None => { return None; },
        };
        let i3 = match e_lit(v, i2, ",\"ardeckStudioWebSocketVersion\":") {
            Some(j) => j,
            None => { return None; },
        };
        let (wv, i4) = match e_jstring(v, i3) {
            Some(p) => p,
            None => { return None; },
        };
        let i5 = match e_lit(v, i4, "}") {
            Some(j) => j,
            None => { return None; },
        };
        Some(
            (
                PluginMessage::Success {
                    ardeck_studio_version: sv,
                    ardeck_studio_web_socket_version: wv,
                },
                i5,
            ),
        )
    } else if op == 2 {
        let i1 = match e_lit(v, i, "{\"messageId\":") {
            Some(j) => j,
            None => { return None; },
        };
        let (mid, i2) = match e_jstring(v, i1) {
            Some(p) => p,
            None => { return None; },
        };
        let i3 = match e_lit(v, i2, ",\"message\":") {
            Some(j) => j,
            None => { return None; },
        };
        let (msg, i4) = match e_jstring(v, i3) {
            Some(p) => p,
            None => { return None; },
        };
        let i5 = match e_lit(v, i4, "}") {
            Some(j) => j,
            None => { return None; },
        };
        Some((PluginMessage::Message { message_id: mid, message: msg }, i5))
    } else {
        let i1 = match e_lit(v, i, "{\"switch\":") {
            Some(j) => j,
            None => { return None; },
        };
        let (sw, i2) = match e_switch(v, i1) {
            Some(p) => p,
            None => { return None; },
        };
        let i3 = match e_lit(v, i2, ",\"target\":{\"pluginId\":") {
            Some(j) => j,
            None => { return None; },
        };
        let (pid, i4) = match e_jstring(v, i3) {
            Some(p) => p,
            None => { return None; },
        };
        let i5 = match e_lit(v, i4, ",\"actionId\":") {
            Some(j) => j,
            None => { return None; },
        };
        let (aid, i6) = match e_jstring(v, i5) {
            Some(p) => p,
            None => { return None; },
        };
        let i7 = match e_lit(v, i6, "}}") {
            Some(j) => j,
            None => { return None; },
        };
        Some(
            (
                PluginMessage::Action(
                    Action {
                        switch: sw,
                        target: ActionTarget { plugin_id: pid, action_id: aid },
                    },
                ),
                i7,
            ),
        )
    }
}

/// Decode a frame of wire text into a message, or say why it was rejected.
///
/// The decoder accepts exactly the canonical layout of [`encode`], with the
/// opcode either bare or between double quotes.
#[verifier::rlimit(100)]
pub fn decode(s: &str) -> (r: Result<PluginMessage, DecodeError>)
    ensures
        match dec_msg(s@) {
            Ok(mv) => r matches Ok(m) && m@ == mv,
            Err(e) => r matches Err(e2) && e2 == e,
        },
{
    let v = to_chars(s);
    proof {
        assert(v@.skip(0) =~= s@);
    }
    let i1 = match e_lit(&v, 0, "{\"op\":") {
        Some(j) => j,
        None => { return Err(DecodeError::Malformed); },
    };
    let (op, i2) = match e_op(&v, i1) {
        Some(p) => p,
        None => { return Err(DecodeError::Malformed); },
    };
    if op > 3 {
        return Err(DecodeError::UnknownOpcode);
    }
    let i3 = match e_lit(&v, i2, ",\"data\":") {
        Some(j) => j,
        None => { return Err(DecodeError::Malformed); },
    };
    let (m, i4) = match e_payload(&v, op, i3) {
        Some(p) => p,
        None => { return Err(DecodeError::SchemaMismatch); },
    };
    proof {
        reveal_strlit("}");
    }
    if v.len() - i4 == 1 && v[i4] == '}' {
        proof {
            assert(v@.skip(i4 as int) =~= "}"@);
        }
        Ok(m)
    } else {
        proof {
            let r4 = v@.skip(i4 as int);
            if r4.len() == 1 {
                assert(r4[0] == v@[i4 as int]);
                assert(r4 != "}"@);
            } else {
                assert(r4.len() != "}"@.len());
                assert(r4 != "}"@);
            }
        }
        Err(DecodeError::Malformed)
    }
}

/// Round trip: every constructible message survives encoding followed by
/// decoding unchanged.
pub proof fn lemma_msg_roundtrip(m: MessageView)
    ensures
        dec_msg(enc_msg(m)) == Ok::<MessageView, DecodeError>(m),
{
    reveal_strlit(",\"data\":");
    reveal_strlit("}");
    let l0 = "{\"op\":"@;
    let l1 = ",\"data\":"@;
    let l2 = "}"@;
    let op = op_code(m);
    let r3 = enc_payload(m) + l2;
    let r2 = l1 + r3;
    let r1 = dec_nat(op) + r2;
    assert(enc_msg(m) =~= l0 + r1);
    lemma_p_lit_roundtrip(l0, r1);
    assert(dec_nat(op) == seq![dec_digit(op as int)]);
    assert(r1[0] == dec_digit(op as int));
    assert(r1[0] != '"');
    assert(r2[0] == ',' && !is_digit(','));
    lemma_p_unum_roundtrip(op, 0xFFFF_FFFF as nat, r2);
    assert(p_op(r1) == Some((op, r2)));
    lemma_p_lit_roundtrip(l1, r3);
    lemma_payload_roundtrip(m, l2);
    assert(dec_msg(enc_msg(m)) == Ok::<MessageView, DecodeError>(m));
}

} // verus!
