//! The devices on a bus, and what they share.
use crate::info::{DeviceInfo, DeviceInfoView};
use crate::json::{
    json_fields, json_list, json_object, json_string, new_object, no_fields, object_text, put_int,
    put_list, put_object, put_str, string_texts, Fields, JsonMap,
};
use crate::mqtt::{publication, retained, MqttMsg, MqttMsgView};
use crate::text::{
    centi, centi_text, chars_of, decimal, push_char, push_decimal, signed_decimal, str_eq,
};
use crate::message::{Status, OW};
use crate::routing::Token;
use crate::twoway::{TwoWay, TwoWayView};
use vstd::prelude::*;
use vstd::string::*;

pub mod airquality;
pub mod binary_sensor;
pub mod controller2;
pub mod dimmer;
pub mod discovery;
pub mod hub;
pub mod model;
pub mod shutter;
pub mod switch8;

pub use airquality::{AirQuality, TempHum};
pub use binary_sensor::BinarySensor;
pub use controller2::Controller2;
pub use dimmer::Dimmer;
pub use hub::Hub;
pub use model::{Model, ModelView, Unknown};
pub use shutter::Shutter;
pub use switch8::Switch8;

verus! {

/// Why a device refused a message.
#[derive(Debug, Clone, PartialEq)]
pub enum Error {
    /// A value outside the range that the device takes.
    Value(String),
    /// A bus address without a sub-address.
    BusId(String),
}

/// The content of an [`Error`].
pub enum ErrorView {
    Value(Seq<char>),
    BusId(Seq<char>),
}

impl View for Error {
    type V = ErrorView;

    open spec fn view(&self) -> ErrorView {
        match self {
            Error::Value(s) => ErrorView::Value(s@),
            Error::BusId(s) => ErrorView::BusId(s@),
        }
    }
}

/// What every device offers. A device is one of a closed set, and what it
/// does is what its kind does.
pub trait Device {
    /// The device as one of the closed set.
    spec fn model_view(&self) -> ModelView;

    /// What is known about the device.
    fn info(&self) -> (i: &DeviceInfo)
        ensures
            i@ == self.model_view().info(),
    ;

    /// The name of the device's kind.
    fn model(&self) -> (m: &'static str)
        ensures
            m@ == self.model_view().model(),
    ;

    /// The human-readable name, or the bus id where there is none.
    fn name(&self) -> (n: &str)
        ensures
            n@ == self.model_view().info().name(),
    ;

    /// Whether the bridge knows this kind of device.
    fn configured(&self) -> (r: bool)
        ensures
            r == self.model_view().configured(),
    ;

    /// Sets the status and publishes it, retained, under the device's
    /// `status` topic.
    fn set_status(&mut self, status: Status) -> (m: MqttMsg)
        ensures
            final(self).model_view() == old(self).model_view().with_status(status),
            m@ == final(self).model_view().status_msg(),
    ;

    /// The commands to send to the device right after enumeration. Asking
    /// for them changes nothing.
    fn init(&mut self) -> (r: Vec<String>)
        ensures
            final(self).model_view() == old(self).model_view(),
            r.deep_view() == old(self).model_view().init_commands(),
    ;

    /// The retained publications that describe the device to its consumers.
    fn announce(&self) -> (r: Vec<MqttMsg>)
        ensures
            r.deep_view() == self.model_view().announcements(),
    ;

    /// The bus addresses for which the device wants the controller's messages.
    fn register_1wire(&self) -> (r: Vec<String>)
        ensures
            r.deep_view() == self.model_view().addresses(),
    ;

    /// Takes a controller message that arrived at `now`, a time in
    /// milliseconds on a clock that does not go back.
    fn handle_1wire(&mut self, resp: OW, now: u64) -> (r: Result<TwoWay, Error>)
        requires
            old(self).model_view().takes(resp@),
        ensures
            final(self).model_view() == old(self).model_view().after(resp@, now),
            outcome(r) == old(self).model_view().answer(resp@, now),
    ;

    /// The MQTT topics whose messages the device wants, each with a token
    /// that tells them apart.
    fn register_mqtt(&self) -> (r: Vec<(String, Token)>)
        ensures
            r.deep_view() == self.model_view().subscriptions(),
    ;

    /// Takes a publication that arrived with `token`.
    fn handle_mqtt(&self, msg: &MqttMsg, token: Token) -> (r: Result<TwoWay, Error>)
        requires
            msg is Pub,
        ensures
            msg@ matches MqttMsgView::Pub { payload, .. } && outcome(r)
                == self.model_view().command(payload, token),
    ;
}

/// `1` for on, `0` for off.
pub open spec fn bit_text(on: bool) -> Seq<char> {
    if on {
        "1"@
    } else {
        "0"@
    }
}

/// `0` for zero, `1` for any other number.
pub fn bool2str(n: u32) -> (s: &'static str)
    ensures
        s@ == bit_text(n != 0),
{
    if n == 0 {
        "0"
    } else {
        "1"
    }
}

/// The payloads that switch something on.
pub open spec fn means_on(s: Seq<char>) -> bool {
    s == "1"@ || s == "on"@ || s == "true"@
}

/// Whether a payload switches something on: `1`, `on` or `true`.
pub fn str2bool(s: &str) -> (b: bool)
    ensures
        b == means_on(s@),
{
    str_eq(s, "1") || str_eq(s, "on") || str_eq(s, "true")
}

/// The characters that stay in a serial number inside a discovery topic.
pub open spec fn is_id_char(c: char) -> bool {
    ('0' <= c <= '9') || ('a' <= c <= 'z') || ('A' <= c <= 'Z') || c == '_' || c == '-'
}

/// A text without the characters that are neither ASCII letters or digits nor
/// `_` or `-`.
pub open spec fn sanitised(s: Seq<char>) -> Seq<char>
    decreases s.len(),
{
    if s.len() == 0 {
        s
    } else if is_id_char(s.last()) {
        sanitised(s.drop_last()).push(s.last())
    } else {
        sanitised(s.drop_last())
    }
}

/// Appends `text` without the characters that a discovery topic cannot hold.
pub fn push_sanitised(out: &mut String, text: &str)
    ensures
        final(out)@ == old(out)@ + sanitised(text@),
{
    let v = chars_of(text);
    let mut i: usize = 0;
    assert(v@.take(0) =~= Seq::<char>::empty());
    assert(old(out)@ + sanitised(v@.take(0)) =~= old(out)@);
    while i < v.len()
        invariant
            i <= v@.len(),
            out@ == old(out)@ + sanitised(v@.take(i as int)),
        decreases v@.len() - i,
    {
        let c = v[i];
        proof {
            assert(v@.take(i + 1).drop_last() =~= v@.take(i as int));
            assert(v@.take(i + 1).last() == c);
        }
        if ('0' <= c && c <= '9') || ('a' <= c && c <= 'z') || ('A' <= c && c <= 'Z') || c == '_'
            || c == '-' {
            push_char(out, c);
            assert(out@ =~= old(out)@ + sanitised(v@.take(i + 1)));
        }
        i += 1;
    }
    assert(v@.take(v@.len() as int) =~= v@);
}

/// The discovery topic of an entity:
/// `homeassistant/<typ>/<contno>/<serial>_<sub>/config`, the serial number
/// without the characters that a topic cannot hold.
pub open spec fn disc_topic_of(typ: Seq<char>, info: DeviceInfoView, sub: Seq<char>) -> Seq<char> {
    "homeassistant/"@ + typ + "/"@ + decimal(info.contno as nat) + "/"@ + sanitised(info.serno)
        + "_"@ + sub + "/config"@
}

/// The discovery topic of an entity of a device.
pub fn disc_topic(typ: &str, info: &DeviceInfo, sub: &str) -> (t: String)
    ensures
        t@ == disc_topic_of(typ@, info@, sub@),
{
    let mut t = String::from_str("homeassistant/");
    t.append(typ);
    t.append("/");
    push_decimal(&mut t, info.contno as u64);
    t.append("/");
    push_sanitised(&mut t, info.serno.as_str());
    t.append("_");
    t.append(sub);
    t.append("/config");
    t
}

/// Whether bit `bit` of a digital word is set.
pub open spec fn bit_of(val: i32, bit: nat) -> bool {
    (#[verifier::truncate] (val as u32)) & (1u32 << (bit as u32)) != 0
}

/// The publications for the lowest `n` channels of a digital word: one for
/// each channel where no previous word is given, else one for each channel
/// whose bit differs from the previous word's. Channel `k` is bit `k - 1`.
pub open spec fn digital_msgs(
    info: DeviceInfoView,
    n: nat,
    inout: Seq<char>,
    val: i32,
    previous: Option<i32>,
) -> Seq<MqttMsgView>
    decreases n,
{
    if n == 0 {
        Seq::empty()
    } else {
        let bit = (n - 1) as nat;
        let rest = digital_msgs(info, bit, inout, val, previous);
        if previous is Some && bit_of(val, bit) == bit_of(previous->Some_0, bit) {
            rest
        } else {
            rest.push(publication(info.channel_topic(inout, n), bit_text(bit_of(val, bit))))
        }
    }
}

/// A digital word that repeats the previous one brings no publication, and a
/// word without a previous one brings one for each of its channels.
pub proof fn law_digital_changes(info: DeviceInfoView, n: nat, inout: Seq<char>, val: i32)
    ensures
        digital_msgs(info, n, inout, val, Some(val)) == Seq::<MqttMsgView>::empty(),
        digital_msgs(info, n, inout, val, None).len() == n,
    decreases n,
{
    if n > 0 {
        law_digital_changes(info, (n - 1) as nat, inout, val);
    }
}

/// Publishes the channels of a digital word under `<inout>/ch<k>`: all of
/// them, or those that changed against `previous`.
pub fn digital_io(info: &DeviceInfo, n: usize, inout: &str, val: i32, previous: Option<i32>) -> (r:
    TwoWay)
    requires
        val >= 0,
        n <= 32,
    ensures
        r@ == TwoWayView::of_mqtt(digital_msgs(info@, n as nat, inout@, val, previous)),
{
    let mut res = TwoWay::empty();
    let mut bit: usize = 0;
    while bit < n
        invariant
            bit <= n <= 32,
            res@ == TwoWayView::of_mqtt(digital_msgs(info@, bit as nat, inout@, val, previous)),
        decreases n - bit,
    {
        let mask: u32 = 1u32 << (bit as u32);
        let now = (#[verifier::truncate] (val as u32)) & mask != 0;
        let changed = match previous {
            Some(old) => now != ((#[verifier::truncate] (old as u32)) & mask != 0),
            None => true,
        };
        if changed {
            let t = info.channel_topic(inout, (bit + 1) as u8);
            res.push_mqtt(MqttMsg::new(t.as_str(), bool2str(if now { 1 } else { 0 })));
        }
        bit += 1;
    }
    res
}

/// How a device presents itself in its discovery documents.
#[derive(Default, Debug, Clone, PartialEq)]
pub struct AnnounceDevice {
    pub identifiers: Vec<String>,
    pub model: String,
    pub name: String,
    pub manufacturer: String,
    pub sw_version: Option<String>,
    pub via_device: Option<String>,
}

/// The content of an [`AnnounceDevice`].
pub struct AnnounceDeviceView {
    pub identifiers: Seq<Seq<char>>,
    pub model: Seq<char>,
    pub name: Seq<char>,
    pub manufacturer: Seq<char>,
    pub sw_version: Option<Seq<char>>,
    pub via_device: Option<Seq<char>>,
}

impl View for AnnounceDevice {
    type V = AnnounceDeviceView;

    open spec fn view(&self) -> AnnounceDeviceView {
        AnnounceDeviceView {
            identifiers: self.identifiers.deep_view(),
            model: self.model@,
            name: self.name@,
            manufacturer: self.manufacturer@,
            sw_version: crate::message::opt_text(self.sw_version),
            via_device: crate::message::opt_text(self.via_device),
        }
    }
}

/// A field that is left out where there is no value.
pub open spec fn with_optional(fields: Fields, key: Seq<char>, val: Option<Seq<char>>) -> Fields {
    match val {
        Some(v) => fields.insert(key, json_string(v)),
        None => fields,
    }
}

impl AnnounceDeviceView {
    /// The fields of the `device` object of a discovery document. A software
    /// version and a parent device stand there only where there is one.
    pub open spec fn fields(self) -> Fields {
        with_optional(
            with_optional(
                no_fields().insert("identifiers"@, json_list(string_texts(self.identifiers))).insert(
                    "manufacturer"@,
                    json_string(self.manufacturer),
                ).insert("model"@, json_string(self.model)).insert("name"@, json_string(self.name)),
                "sw_version"@,
                self.sw_version,
            ),
            "via_device"@,
            self.via_device,
        )
    }

    /// The JSON text of the `device` object.
    pub open spec fn text(self) -> Seq<char> {
        json_object(self.fields())
    }

    /// How the device in `info`, of the given model, presents itself.
    pub open spec fn of(info: DeviceInfoView, model: Seq<char>) -> AnnounceDeviceView {
        AnnounceDeviceView {
            identifiers: match info.name {
                Some(n) => seq![info.serno, decimal(info.contno as nat) + "/"@ + n],
                None => seq![info.serno],
            },
            model: model + " "@ + info.artno,
            name: "1-Wire bus "@ + decimal(info.contno as nat) + "/"@ + info.name(),
            manufacturer: "ESERA"@,
            sw_version: None,
            via_device: if info.busid != "SYS"@ {
                Some(decimal(info.contno as nat) + "/SYS"@)
            } else {
                None
            },
        }
    }
}

impl AnnounceDevice {
    /// The `device` object of a discovery document.
    pub fn to_json(&self) -> (m: JsonMap)
        ensures
            json_fields(m) == self@.fields(),
    {
        let mut m = new_object();
        put_list(&mut m, "identifiers", &self.identifiers);
        put_str(&mut m, "manufacturer", self.manufacturer.as_str());
        put_str(&mut m, "model", self.model.as_str());
        put_str(&mut m, "name", self.name.as_str());
        match &self.sw_version {
            Some(v) => put_str(&mut m, "sw_version", v.as_str()),
            None => {},
        }
        match &self.via_device {
            Some(v) => put_str(&mut m, "via_device", v.as_str()),
            None => {},
        }
        m
    }
}

/// How the device in `info`, of the given model, presents itself: by its
/// serial number and, where it has a name, by controller number and name;
/// every device but the controller itself hangs below `<contno>/SYS`.
pub fn announce_device(info: &DeviceInfo, model: &str) -> (dev: AnnounceDevice)
    ensures
        dev@ == AnnounceDeviceView::of(info@, model@),
{
    let mut identifiers: Vec<String> = Vec::new();
    identifiers.push(info.serno.clone());
    match &info.name {
        Some(n) => {
            let mut id = String::new();
            push_decimal(&mut id, info.contno as u64);
            id.append("/");
            id.append(n.as_str());
            assert(id@ =~= decimal(info.contno as nat) + "/"@ + n@);
            identifiers.push(id);
            assert(identifiers.deep_view() =~= seq![
                info.serno@,
                decimal(info.contno as nat) + "/"@ + n@,
            ]);
        },
        None => {
            assert(identifiers.deep_view() =~= seq![info.serno@]);
        },
    }
    let mut model_text = String::from_str(model);
    model_text.append(" ");
    model_text.append(info.artno.as_str());
    let mut name = String::from_str("1-Wire bus ");
    push_decimal(&mut name, info.contno as u64);
    name.append("/");
    name.append(info.name());
    let via_device = if !str_eq(info.busid.as_str(), "SYS") {
        let mut via = String::new();
        push_decimal(&mut via, info.contno as u64);
        via.append("/SYS");
        assert(via@ =~= decimal(info.contno as nat) + "/SYS"@);
        Some(via)
    } else {
        None
    };
    AnnounceDevice {
        identifiers,
        model: model_text,
        name,
        manufacturer: String::from_str("ESERA"),
        sw_version: None,
        via_device,
    }
}


/// What a handler answers, by content.
pub open spec fn outcome(r: Result<TwoWay, Error>) -> Result<TwoWayView, ErrorView> {
    match r {
        Ok(t) => Ok(t@),
        Err(e) => Err(e@),
    }
}

/// One reading, published under an item of the device: the raw value counts
/// hundredths.
pub open spec fn reading(info: DeviceInfoView, item: Seq<char>, val: i32) -> TwoWayView {
    TwoWayView::of_mqtt(seq![publication(info.topic(item), centi(val as int))])
}

/// Publishes a raw sensor value, which counts hundredths, under `item`.
pub fn sensor_reading(info: &DeviceInfo, item: &str, val: i32) -> (r: TwoWay)
    ensures
        r@ == reading(info@, item@, val),
{
    let text = centi_text(val);
    TwoWay::from_mqtt(info.mqtt_msg(item, text.as_str()))
}

/// The discovery document of a sensor entity that reports under `item`.
pub open spec fn sensor_fields(
    info: DeviceInfoView,
    dev: AnnounceDeviceView,
    name: Seq<char>,
    item: Seq<char>,
    class: Seq<char>,
    unit: Seq<char>,
    expire: int,
    qos: bool,
) -> Fields {
    let base = no_fields().insert("availability_topic"@, json_string(info.status_topic())).insert(
        "device"@,
        dev.text(),
    ).insert("device_class"@, json_string(class)).insert(
        "expire_after"@,
        signed_decimal(expire),
    ).insert("name"@, json_string(name)).insert(
        "state_topic"@,
        json_string(info.topic(item)),
    ).insert("unique_id"@, json_string(info.serno + "_"@ + item)).insert(
        "unit_of_measurement"@,
        json_string(unit),
    );
    if qos {
        base.insert("qos"@, signed_decimal(1))
    } else {
        base
    }
}

/// The retained announcement of a sensor entity.
pub open spec fn sensor_announcement(
    info: DeviceInfoView,
    dev: AnnounceDeviceView,
    name: Seq<char>,
    item: Seq<char>,
    class: Seq<char>,
    unit: Seq<char>,
    expire: int,
    qos: bool,
) -> MqttMsgView {
    retained(
        disc_topic_of("sensor"@, info, item),
        json_object(sensor_fields(info, dev, name, item, class, unit, expire, qos)),
    )
}

/// Announces a sensor entity that reports under `item`.
pub fn sensor_entity(
    info: &DeviceInfo,
    dev: &AnnounceDevice,
    name: &str,
    item: &str,
    class: &str,
    unit: &str,
    expire: i64,
    qos: bool,
) -> (m: MqttMsg)
    ensures
        m@ == sensor_announcement(info@, dev@, name@, item@, class@, unit@, expire as int, qos),
{
    let mut doc = new_object();
    put_str(&mut doc, "availability_topic", info.status_topic().as_str());
    put_object(&mut doc, "device", dev.to_json());
    put_str(&mut doc, "device_class", class);
    put_int(&mut doc, "expire_after", expire);
    put_str(&mut doc, "name", name);
    put_str(&mut doc, "state_topic", info.topic(item).as_str());
    let mut id = info.serno.clone();
    id.append("_");
    id.append(item);
    put_str(&mut doc, "unique_id", id.as_str());
    put_str(&mut doc, "unit_of_measurement", unit);
    if qos {
        put_int(&mut doc, "qos", 1);
    }
    let topic = disc_topic("sensor", info, item);
    let payload = object_text(doc);
    MqttMsg::retain(topic.as_str(), payload.as_str())
}

/// The name of a device followed by a word: `<name> <word>`.
pub fn entity_name(info: &DeviceInfo, word: &str) -> (n: String)
    ensures
        n@ == info@.name() + " "@ + word@,
{
    let mut n = String::from_str(info.name());
    n.append(" ");
    n.append(word);
    n
}

} // verus!
