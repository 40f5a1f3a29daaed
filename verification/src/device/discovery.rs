//! Discovery documents that several devices share.
use super::{disc_topic, disc_topic_of, AnnounceDevice, AnnounceDeviceView};
use crate::info::{DeviceInfo, DeviceInfoView};
use crate::json::{
    json_object, json_string, new_object, no_fields, object_text, put_int, put_object, put_str,
    Fields,
};
use crate::mqtt::{retained, MqttMsg, MqttMsgView};
use crate::text::{decimal, push_decimal, signed_decimal, str_eq};
use vstd::prelude::*;
use vstd::string::*;

verus! {

/// A word followed by a number: `ch3`.
pub fn label(word: &str, n: u8) -> (s: String)
    ensures
        s@ == word@ + decimal(n as nat),
{
    let mut s = String::from_str(word);
    push_decimal(&mut s, n as u64);
    s
}

/// `<word> <contno>/<name>.<ch>`: the name of a channel entity.
pub open spec fn channel_name(word: Seq<char>, info: DeviceInfoView, ch: nat) -> Seq<char> {
    word + " "@ + decimal(info.contno as nat) + "/"@ + info.name() + "."@ + decimal(ch)
}

/// The name of a channel entity of a device.
pub fn channel_label(word: &str, info: &DeviceInfo, ch: u8) -> (s: String)
    ensures
        s@ == channel_name(word@, info@, ch as nat),
{
    let mut s = String::from_str(word);
    s.append(" ");
    push_decimal(&mut s, info.contno as u64);
    s.append("/");
    s.append(info.name());
    s.append(".");
    push_decimal(&mut s, ch as u64);
    s
}

/// `Controller.<contno> <what>`: the name of an entity of the controller.
pub open spec fn controller_name(info: DeviceInfoView, what: Seq<char>) -> Seq<char> {
    "Controller."@ + decimal(info.contno as nat) + " "@ + what
}

/// The name of an entity of the controller.
pub fn controller_label(info: &DeviceInfo, what: &str) -> (s: String)
    ensures
        s@ == controller_name(info@, what@),
{
    let mut s = String::from_str("Controller.");
    push_decimal(&mut s, info.contno as u64);
    s.append(" ");
    s.append(what);
    s
}

/// The kind of a button event: a press for payload `1`, else a release, each
/// short or long as `dur` says.
pub open spec fn trigger_type(dur: Seq<char>, payload: Seq<char>) -> Seq<char> {
    "button_"@ + dur + if payload == "1"@ {
        "_press"@
    } else {
        "_release"@
    }
}

/// The discovery document of a button trigger: it fires when `payload` is
/// published for channel `ch` under `button/ch<ch>`.
pub open spec fn trigger_fields(
    info: DeviceInfoView,
    dev: AnnounceDeviceView,
    ch: nat,
    dur: Seq<char>,
    payload: Seq<char>,
) -> Fields {
    no_fields().insert("automation_type"@, json_string("trigger"@)).insert(
        "device"@,
        dev.text(),
    ).insert("payload"@, json_string(payload)).insert(
        "subtype"@,
        json_string("button_"@ + decimal(ch)),
    ).insert("topic"@, json_string(info.channel_topic("button"@, ch))).insert(
        "type"@,
        json_string(trigger_type(dur, payload)),
    )
}

/// The retained announcement of a button trigger.
pub open spec fn trigger_announcement(
    info: DeviceInfoView,
    dev: AnnounceDeviceView,
    ch: nat,
    dur: Seq<char>,
    payload: Seq<char>,
) -> MqttMsgView {
    retained(
        disc_topic_of("device_automation"@, info, "button_"@ + decimal(ch) + "_"@ + payload),
        json_object(trigger_fields(info, dev, ch, dur, payload)),
    )
}

/// Announces the trigger for one payload of a button channel.
pub fn announce_trigger(info: &DeviceInfo, dev: &AnnounceDevice, ch: u8, dur: &str, payload: &str) -> (m:
    MqttMsg)
    ensures
        m@ == trigger_announcement(info@, dev@, ch as nat, dur@, payload@),
{
    let button = label("button_", ch);
    let mut kind = String::from_str("button_");
    kind.append(dur);
    if str_eq(payload, "1") {
        kind.append("_press");
    } else {
        kind.append("_release");
    }
    let mut doc = new_object();
    put_str(&mut doc, "automation_type", "trigger");
    put_object(&mut doc, "device", dev.to_json());
    put_str(&mut doc, "payload", payload);
    put_str(&mut doc, "subtype", button.as_str());
    put_str(&mut doc, "topic", info.channel_topic("button", ch).as_str());
    put_str(&mut doc, "type", kind.as_str());
    let mut sub = button.clone();
    sub.append("_");
    sub.append(payload);
    let topic = disc_topic("device_automation", info, sub.as_str());
    MqttMsg::retain(topic.as_str(), object_text(doc).as_str())
}

/// The discovery document of a switch: commands under `set/ch<ch>`, state
/// under `out/ch<ch>`.
pub open spec fn switch_fields(
    info: DeviceInfoView,
    dev: AnnounceDeviceView,
    name: Seq<char>,
    ch: nat,
) -> Fields {
    no_fields().insert("availability_topic"@, json_string(info.status_topic())).insert(
        "command_topic"@,
        json_string(info.channel_topic("set"@, ch)),
    ).insert("state_topic"@, json_string(info.channel_topic("out"@, ch))).insert(
        "device"@,
        dev.text(),
    ).insert("name"@, json_string(name)).insert("payload_on"@, json_string("1"@)).insert(
        "payload_off"@,
        json_string("0"@),
    ).insert("unique_id"@, json_string(info.serno + "_ch"@ + decimal(ch)))
}

/// The retained announcement of a switch.
pub open spec fn switch_announcement(
    info: DeviceInfoView,
    dev: AnnounceDeviceView,
    name: Seq<char>,
    ch: nat,
) -> MqttMsgView {
    retained(
        disc_topic_of("switch"@, info, "ch"@ + decimal(ch)),
        json_object(switch_fields(info, dev, name, ch)),
    )
}

/// Announces output channel `ch` as a switch.
pub fn switch_entity(info: &DeviceInfo, dev: &AnnounceDevice, name: &str, ch: u8) -> (m: MqttMsg)
    ensures
        m@ == switch_announcement(info@, dev@, name@, ch as nat),
{
    let mut doc = new_object();
    put_str(&mut doc, "availability_topic", info.status_topic().as_str());
    put_str(&mut doc, "command_topic", info.channel_topic("set", ch).as_str());
    put_str(&mut doc, "state_topic", info.channel_topic("out", ch).as_str());
    put_object(&mut doc, "device", dev.to_json());
    put_str(&mut doc, "name", name);
    put_str(&mut doc, "payload_on", "1");
    put_str(&mut doc, "payload_off", "0");
    let mut id = info.serno.clone();
    id.append("_ch");
    push_decimal(&mut id, ch as u64);
    put_str(&mut doc, "unique_id", id.as_str());
    let topic = disc_topic("switch", info, label("ch", ch).as_str());
    MqttMsg::retain(topic.as_str(), object_text(doc).as_str())
}

/// The discovery document of a binary sensor that reports under
/// `in/ch<ch>`. It expires after `expire` seconds where that is given.
pub open spec fn input_fields(
    info: DeviceInfoView,
    dev: AnnounceDeviceView,
    name: Seq<char>,
    ch: nat,
    id: Seq<char>,
    expire: Option<int>,
) -> Fields {
    let base = no_fields().insert("availability_topic"@, json_string(info.status_topic())).insert(
        "device"@,
        dev.text(),
    ).insert("name"@, json_string(name)).insert("payload_off"@, json_string("0"@)).insert(
        "payload_on"@,
        json_string("1"@),
    ).insert("state_topic"@, json_string(info.channel_topic("in"@, ch))).insert(
        "unique_id"@,
        json_string(info.serno + "_"@ + id),
    );
    match expire {
        Some(e) => base.insert("expire_after"@, signed_decimal(e)),
        None => base,
    }
}

/// The retained announcement of a binary sensor, under the entity id `sub`.
pub open spec fn input_announcement(
    info: DeviceInfoView,
    dev: AnnounceDeviceView,
    sub: Seq<char>,
    name: Seq<char>,
    ch: nat,
    id: Seq<char>,
    expire: Option<int>,
) -> MqttMsgView {
    retained(
        disc_topic_of("binary_sensor"@, info, sub),
        json_object(input_fields(info, dev, name, ch, id, expire)),
    )
}

/// Announces input channel `ch` as a binary sensor.
pub fn input_entity(
    info: &DeviceInfo,
    dev: &AnnounceDevice,
    sub: &str,
    name: &str,
    ch: u8,
    id: &str,
    expire: Option<i64>,
) -> (m: MqttMsg)
    ensures
        m@ == input_announcement(
            info@,
            dev@,
            sub@,
            name@,
            ch as nat,
            id@,
            match expire {
                Some(e) => Some(e as int),
                None => None,
            },
        ),
{
    let mut doc = new_object();
    put_str(&mut doc, "availability_topic", info.status_topic().as_str());
    put_object(&mut doc, "device", dev.to_json());
    put_str(&mut doc, "name", name);
    put_str(&mut doc, "payload_off", "0");
    put_str(&mut doc, "payload_on", "1");
    put_str(&mut doc, "state_topic", info.channel_topic("in", ch).as_str());
    let mut unique = info.serno.clone();
    unique.append("_");
    unique.append(id);
    put_str(&mut doc, "unique_id", unique.as_str());
    match expire {
        Some(e) => put_int(&mut doc, "expire_after", e),
        None => {},
    }
    let topic = disc_topic("binary_sensor", info, sub);
    MqttMsg::retain(topic.as_str(), object_text(doc).as_str())
}

} // verus!
