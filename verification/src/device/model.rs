//! The closed set of devices, and the choice among them by article number.
use super::airquality::sensor_answer;
use super::controller2::Controller2View;
use super::shutter::ShutterView;
use super::switch8::Switch8View;
use super::{
    AirQuality, BinarySensor, Controller2, Device, Dimmer, Error, ErrorView, Hub, Shutter,
    Switch8, TempHum,
};
use crate::info::{DeviceInfo, DeviceInfoView};
use crate::message::{subaddr_of, MsgView, OWView, Status, OW};
use crate::mqtt::{retained, MqttMsg, MqttMsgView};
use crate::routing::Token;
use crate::text::{
    decimal, lemma_decimal_digits, lemma_last_segment_digits, padded, push_decimal, push_padded,
    str_eq,
};
use crate::twoway::{TwoWay, TwoWayView};
use vstd::prelude::*;
use vstd::string::*;

verus! {

/// A device of a kind that the bridge does not know, or an empty slot.
#[derive(Debug, Clone, PartialEq, Default)]
pub struct Unknown {
    pub info: DeviceInfo,
}

impl View for Unknown {
    type V = DeviceInfoView;

    open spec fn view(&self) -> DeviceInfoView {
        self.info@
    }
}

impl Unknown {
    pub fn new(info: DeviceInfo) -> (r: Self)
        ensures
            r.info == info,
    {
        Unknown { info }
    }
}

impl Device for Unknown {
    open spec fn model_view(&self) -> ModelView {
        ModelView::Unknown(self@)
    }

    fn info(&self) -> &DeviceInfo {
        &self.info
    }

    fn model(&self) -> &'static str {
        "Unknown"
    }

    fn name(&self) -> &str {
        self.info.name()
    }

    fn configured(&self) -> bool {
        false
    }

    fn set_status(&mut self, status: Status) -> MqttMsg {
        self.info.status = status;
        MqttMsg::retain(self.info.status_topic().as_str(), status.as_str())
    }

    fn init(&mut self) -> Vec<String> {
        let r: Vec<String> = Vec::new();
        assert(r.deep_view() =~= Seq::<Seq<char>>::empty());
        r
    }

    fn announce(&self) -> Vec<MqttMsg> {
        let r: Vec<MqttMsg> = Vec::new();
        assert(r.deep_view() =~= Seq::<MqttMsgView>::empty());
        r
    }

    fn register_1wire(&self) -> Vec<String> {
        let r: Vec<String> = Vec::new();
        assert(r.deep_view() =~= Seq::<Seq<char>>::empty());
        r
    }

    fn handle_1wire(&mut self, _resp: OW, _now: u64) -> Result<TwoWay, Error> {
        Ok(TwoWay::empty())
    }

    fn register_mqtt(&self) -> Vec<(String, Token)> {
        let r: Vec<(String, Token)> = Vec::new();
        assert(r.deep_view() =~= Seq::<(Seq<char>, Token)>::empty());
        r
    }

    fn handle_mqtt(&self, _msg: &MqttMsg, _token: Token) -> Result<TwoWay, Error> {
        Ok(TwoWay::empty())
    }
}

/// The device in a slot of a bus.
#[derive(Clone, Debug, PartialEq)]
pub enum Model {
    AirQuality(AirQuality),
    BinarySensor(BinarySensor),
    Controller2(Controller2),
    Dimmer(Dimmer),
    Hub(Hub),
    Shutter(Shutter),
    Switch8(Switch8),
    TempHum(TempHum),
    Unknown(Unknown),
}

/// The content of a [`Model`].
pub enum ModelView {
    AirQuality(DeviceInfoView),
    BinarySensor(DeviceInfoView),
    Controller2(Controller2View),
    Dimmer(DeviceInfoView),
    Hub(DeviceInfoView),
    Shutter(ShutterView),
    Switch8(Switch8View),
    TempHum(DeviceInfoView),
    Unknown(DeviceInfoView),
}

impl View for Model {
    type V = ModelView;

    open spec fn view(&self) -> ModelView {
        match self {
            Model::AirQuality(d) => ModelView::AirQuality(d@),
            Model::BinarySensor(d) => ModelView::BinarySensor(d@),
            Model::Controller2(d) => ModelView::Controller2(d@),
            Model::Dimmer(d) => ModelView::Dimmer(d@),
            Model::Hub(d) => ModelView::Hub(d@),
            Model::Shutter(d) => ModelView::Shutter(d@),
            Model::Switch8(d) => ModelView::Switch8(d@),
            Model::TempHum(d) => ModelView::TempHum(d@),
            Model::Unknown(d) => ModelView::Unknown(d@),
        }
    }
}

impl DeepView for Model {
    type V = ModelView;

    open spec fn deep_view(&self) -> ModelView {
        self@
    }
}

impl ModelView {
    /// The device for an article number: `11150` is a `TempHum`, `11151` an
    /// `AirQuality`, `11216` a `BinarySensor`, `11220`, `11228` and `11229` a
    /// `Switch8`, `11221` a `Dimmer`, `11322` a `Hub`, `11340` a
    /// `Controller2`. Every other one is `Unknown`.
    pub open spec fn select(info: DeviceInfoView) -> ModelView {
        let a = info.artno;
        if a == "11150"@ {
            ModelView::TempHum(info)
        } else if a == "11151"@ {
            ModelView::AirQuality(info)
        } else if a == "11216"@ {
            ModelView::BinarySensor(info)
        } else if a == "11220"@ || a == "11228"@ || a == "11229"@ {
            ModelView::Switch8(Switch8View { info, inputs: None })
        } else if a == "11221"@ {
            ModelView::Dimmer(info)
        } else if a == "11322"@ {
            ModelView::Hub(info)
        } else if a == "11340"@ {
            ModelView::Controller2(Controller2View::fresh(info))
        } else {
            ModelView::Unknown(info)
        }
    }

    /// An empty slot.
    pub open spec fn empty() -> ModelView {
        ModelView::Unknown(DeviceInfoView::empty())
    }

    /// What is known about the device.
    pub open spec fn info(self) -> DeviceInfoView {
        match self {
            ModelView::AirQuality(i) => i,
            ModelView::BinarySensor(i) => i,
            ModelView::Controller2(c) => c.info,
            ModelView::Dimmer(i) => i,
            ModelView::Hub(i) => i,
            ModelView::Shutter(s) => s.info,
            ModelView::Switch8(s) => s.info,
            ModelView::TempHum(i) => i,
            ModelView::Unknown(i) => i,
        }
    }

    /// The same device with other info.
    pub open spec fn with_info(self, info: DeviceInfoView) -> ModelView {
        match self {
            ModelView::AirQuality(_) => ModelView::AirQuality(info),
            ModelView::BinarySensor(_) => ModelView::BinarySensor(info),
            ModelView::Controller2(c) => ModelView::Controller2(Controller2View { info, ..c }),
            ModelView::Dimmer(_) => ModelView::Dimmer(info),
            ModelView::Hub(_) => ModelView::Hub(info),
            ModelView::Shutter(s) => ModelView::Shutter(ShutterView { info, ..s }),
            ModelView::Switch8(s) => ModelView::Switch8(Switch8View { info, ..s }),
            ModelView::TempHum(_) => ModelView::TempHum(info),
            ModelView::Unknown(_) => ModelView::Unknown(info),
        }
    }

    /// The same device with another status.
    pub open spec fn with_status(self, status: Status) -> ModelView {
        self.with_info(DeviceInfoView { status, ..self.info() })
    }

    /// The name of the device's kind.
    pub open spec fn model(self) -> Seq<char> {
        match self {
            ModelView::AirQuality(_) => "AirQuality"@,
            ModelView::BinarySensor(_) => "BinarySensor"@,
            ModelView::Controller2(_) => "Controller2"@,
            ModelView::Dimmer(_) => "Dimmer"@,
            ModelView::Hub(_) => "Hub"@,
            ModelView::Shutter(_) => "Shutter"@,
            ModelView::Switch8(_) => "Switch8"@,
            ModelView::TempHum(_) => "TempHum"@,
            ModelView::Unknown(_) => "Unknown"@,
        }
    }

    /// The line that lists the device: controller number, bus id, kind,
    /// article number, serial number and name, `-` where it has none.
    pub open spec fn line(self) -> Seq<char> {
        let i = self.info();
        "["@ + decimal(i.contno as nat) + "] "@ + padded(i.busid, 5) + " "@ + padded(
            self.model(),
            13,
        ) + " ("@ + i.artno + ") S/N "@ + padded(i.serno, 17) + " "@ + match i.name {
            Some(n) => n,
            None => "-"@,
        }
    }

    /// Whether the slot holds a device that the bridge knows.
    pub open spec fn configured(self) -> bool {
        !(self is Unknown)
    }

    /// The retained publication of the device's status.
    pub open spec fn status_msg(self) -> MqttMsgView {
        retained(self.info().status_topic(), self.info().status.name())
    }

    /// The bus addresses whose values the device can take.
    pub open spec fn accepts(self, addr: Seq<char>) -> bool {
        match self {
            ModelView::AirQuality(_) => AirQuality::accepts(addr),
            ModelView::BinarySensor(_) => BinarySensor::accepts(addr),
            ModelView::Controller2(_) => Controller2View::accepts(addr),
            ModelView::Dimmer(_) => true,
            ModelView::Hub(_) => Hub::accepts(addr),
            ModelView::Shutter(_) => ShutterView::accepts(addr),
            ModelView::Switch8(_) => Switch8View::accepts(addr),
            ModelView::TempHum(_) => TempHum::accepts(addr),
            ModelView::Unknown(_) => true,
        }
    }

    /// Whether the device can take a controller message: every message but
    /// a device status from an address that is not its own.
    pub open spec fn takes(self, resp: OWView) -> bool {
        resp.msg matches MsgView::Devstatus(s) ==> self.accepts(s.addr)
    }

    /// What the device answers to a controller message that arrives at `now`.
    pub open spec fn answer(self, resp: OWView, now: u64) -> Result<TwoWayView, ErrorView> {
        match self {
            ModelView::AirQuality(i) => sensor_answer(i, resp, |sub: u8| AirQuality::item(sub)),
            ModelView::BinarySensor(i) => BinarySensor::answer(i, resp),
            ModelView::Controller2(c) => c.answer(resp),
            ModelView::Dimmer(i) => Ok(Dimmer::answer(i, resp)),
            ModelView::Hub(i) => sensor_answer(i, resp, |sub: u8| Hub::item(sub)),
            ModelView::Shutter(s) => s.answer(resp, now),
            ModelView::Switch8(s) => s.answer(resp),
            ModelView::TempHum(i) => sensor_answer(i, resp, |sub: u8| TempHum::item(sub)),
            ModelView::Unknown(_) => Ok(TwoWayView::empty()),
        }
    }

    /// The device after a controller message that arrives at `now`.
    pub open spec fn after(self, resp: OWView, now: u64) -> ModelView {
        match self {
            ModelView::Controller2(c) => ModelView::Controller2(c.after(resp)),
            ModelView::Shutter(s) => ModelView::Shutter(s.after(resp, now)),
            ModelView::Switch8(s) => ModelView::Switch8(s.after(resp)),
            _ => self,
        }
    }

    /// The bus addresses for which the device wants the controller's messages.
    pub open spec fn addresses(self) -> Seq<Seq<char>> {
        match self {
            ModelView::AirQuality(i) => seq![1u8, 2u8, 3u8, 4u8, 5u8].map_values(
                |sub: u8| i.busaddr(sub),
            ),
            ModelView::BinarySensor(i) => seq![1u8].map_values(|sub: u8| i.busaddr(sub)),
            ModelView::Controller2(_) => seq!["SYS1_1"@, "SYS2_1"@, "SYS3"@],
            ModelView::Dimmer(i) => seq![1u8, 3u8, 4u8].map_values(|sub: u8| i.busaddr(sub)),
            ModelView::Hub(i) => seq![1u8, 2u8, 3u8, 4u8].map_values(|sub: u8| i.busaddr(sub)),
            ModelView::Shutter(s) => seq![1u8, 3u8].map_values(|sub: u8| s.info.busaddr(sub)),
            ModelView::Switch8(s) => seq![1u8, 3u8].map_values(|sub: u8| s.info.busaddr(sub)),
            ModelView::TempHum(i) => seq![1u8, 2u8, 3u8, 4u8].map_values(|sub: u8| i.busaddr(sub)),
            ModelView::Unknown(_) => Seq::empty(),
        }
    }

    /// The commands to send to the device right after enumeration.
    pub open spec fn init_commands(self) -> Seq<Seq<char>> {
        match self {
            ModelView::Controller2(_) => seq!["SET,SYS,OUTA,500"@, "GET,SYS,DIO"@],
            _ => Seq::empty(),
        }
    }

    /// The retained publications that describe the device to its consumers.
    pub open spec fn announcements(self) -> Seq<MqttMsgView> {
        match self {
            ModelView::AirQuality(i) => AirQuality::announcements(i),
            ModelView::BinarySensor(i) => BinarySensor::announcements(i, 8),
            ModelView::Controller2(c) => Controller2View::announcements(c.info, c.dio, c.sw_version),
            ModelView::Dimmer(i) => Dimmer::announcements(i, 2),
            ModelView::Hub(i) => Hub::announcements(i),
            ModelView::Shutter(s) => ShutterView::announcements(s.info),
            ModelView::Switch8(s) => Switch8View::announcements(s.info, 8),
            ModelView::TempHum(i) => TempHum::announcements(i),
            ModelView::Unknown(_) => Seq::empty(),
        }
    }

    /// The MQTT topics whose messages the device wants, each with its token.
    pub open spec fn subscriptions(self) -> Seq<(Seq<char>, Token)> {
        match self {
            ModelView::Controller2(c) => Controller2View::subscriptions(c.info),
            ModelView::Dimmer(i) => Dimmer::subscriptions(i),
            ModelView::Shutter(s) => seq![(s.info.topic("set"@), 0i32)],
            ModelView::Switch8(s) => Switch8View::subscriptions(s.info, 8),
            _ => Seq::empty(),
        }
    }

    /// What the device does with a publication that arrived with `token`.
    pub open spec fn command(self, payload: Seq<char>, token: Token) -> Result<
        TwoWayView,
        ErrorView,
    > {
        match self {
            ModelView::Controller2(_) => Controller2View::command(payload, token),
            ModelView::Dimmer(i) => Dimmer::command(i, payload, token),
            ModelView::Shutter(s) => Ok(ShutterView::command(s.info, payload)),
            ModelView::Switch8(s) => Ok(Switch8View::command(s.info, payload, token)),
            _ => Ok(TwoWayView::empty()),
        }
    }
}

/// The bus address that a device makes of a sub-address has that sub-address.
pub proof fn lemma_busaddr_subaddr(info: DeviceInfoView, sub: u8)
    ensures
        subaddr_of(info.busaddr(sub)) == Some(sub),
{
    lemma_decimal_digits(sub as nat);
    lemma_last_segment_digits(info.busid, decimal(sub as nat));
}

/// A device can take the values of every bus address that it registers.
pub proof fn lemma_addresses_accepted(device: ModelView, k: int)
    requires
        0 <= k < device.addresses().len(),
    ensures
        device.accepts(device.addresses()[k]),
{
    let info = device.info();
    match device {
        ModelView::Controller2(_) => {},
        ModelView::Dimmer(_) => {},
        ModelView::Unknown(_) => {},
        ModelView::AirQuality(_) => {
            let subs = seq![1u8, 2u8, 3u8, 4u8, 5u8];
            lemma_busaddr_subaddr(info, subs[k]);
        },
        ModelView::BinarySensor(_) => {
            lemma_busaddr_subaddr(info, 1u8);
        },
        ModelView::Hub(_) => {
            let subs = seq![1u8, 2u8, 3u8, 4u8];
            lemma_busaddr_subaddr(info, subs[k]);
        },
        ModelView::TempHum(_) => {
            let subs = seq![1u8, 2u8, 3u8, 4u8];
            lemma_busaddr_subaddr(info, subs[k]);
        },
        ModelView::Shutter(_) => {
            let subs = seq![1u8, 3u8];
            lemma_busaddr_subaddr(info, subs[k]);
        },
        ModelView::Switch8(_) => {
            let subs = seq![1u8, 3u8];
            lemma_busaddr_subaddr(info, subs[k]);
        },
    }
}

impl Default for Model {
    fn default() -> (r: Self)
        ensures
            r@ == ModelView::empty(),
    {
        Model::Unknown(Unknown { info: DeviceInfo::default() })
    }
}

impl Model {
    /// Chooses the device for the article number in `info`.
    pub fn select(info: DeviceInfo) -> (r: Self)
        ensures
            r@ == ModelView::select(info@),
    {
        let a = info.artno.clone();
        let a = a.as_str();
        if str_eq(a, "11150") {
            Model::TempHum(TempHum::new(info))
        } else if str_eq(a, "11151") {
            Model::AirQuality(AirQuality::new(info))
        } else if str_eq(a, "11216") {
            Model::BinarySensor(BinarySensor::new(info))
        } else if str_eq(a, "11220") || str_eq(a, "11228") || str_eq(a, "11229") {
            Model::Switch8(Switch8::new(info))
        } else if str_eq(a, "11221") {
            Model::Dimmer(Dimmer::new(info))
        } else if str_eq(a, "11322") {
            Model::Hub(Hub::new(info))
        } else if str_eq(a, "11340") {
            Model::Controller2(Controller2::new(info))
        } else {
            Model::Unknown(Unknown::new(info))
        }
    }

    /// The line that lists the device.
    pub fn to_text(&self) -> (s: String)
        ensures
            s@ == self@.line(),
    {
        let i = self.info();
        let mut s = String::from_str("[");
        push_decimal(&mut s, i.contno as u64);
        s.append("] ");
        push_padded(&mut s, i.busid.as_str(), 5);
        s.append(" ");
        push_padded(&mut s, self.model(), 13);
        s.append(" (");
        s.append(i.artno.as_str());
        s.append(") S/N ");
        push_padded(&mut s, i.serno.as_str(), 17);
        s.append(" ");
        match &i.name {
            Some(n) => s.append(n.as_str()),
            None => s.append("-"),
        }
        s
    }

}

impl Device for Model {
    open spec fn model_view(&self) -> ModelView {
        self@
    }

    /// What is known about the device.
    fn info(&self) -> (i: &DeviceInfo) {
        match self {
            Model::AirQuality(d) => &d.info,
            Model::BinarySensor(d) => &d.info,
            Model::Controller2(d) => &d.info,
            Model::Dimmer(d) => &d.info,
            Model::Hub(d) => &d.info,
            Model::Shutter(d) => &d.info,
            Model::Switch8(d) => &d.info,
            Model::TempHum(d) => &d.info,
            Model::Unknown(d) => &d.info,
        }
    }

    /// The name of the device's kind.
    fn model(&self) -> (m: &'static str) {
        match self {
            Model::AirQuality(_) => "AirQuality",
            Model::BinarySensor(_) => "BinarySensor",
            Model::Controller2(_) => "Controller2",
            Model::Dimmer(_) => "Dimmer",
            Model::Hub(_) => "Hub",
            Model::Shutter(_) => "Shutter",
            Model::Switch8(_) => "Switch8",
            Model::TempHum(_) => "TempHum",
            Model::Unknown(_) => "Unknown",
        }
    }

    /// The human-readable name, or the bus id where there is none.
    fn name(&self) -> (n: &str) {
        self.info().name()
    }

    /// Whether the slot holds a device that the bridge knows.
    fn configured(&self) -> (r: bool) {
        match self {
            Model::Unknown(_) => false,
            _ => true,
        }
    }

    /// Sets the status and publishes it, retained, under the device's
    /// `status` topic.
    fn set_status(&mut self, status: Status) -> (m: MqttMsg) {
        match self {
            Model::AirQuality(d) => {
                d.info.status = status;
            },
            Model::BinarySensor(d) => {
                d.info.status = status;
            },
            Model::Controller2(d) => {
                d.info.status = status;
            },
            Model::Dimmer(d) => {
                d.info.status = status;
            },
            Model::Hub(d) => {
                d.info.status = status;
            },
            Model::Shutter(d) => {
                d.info.status = status;
            },
            Model::Switch8(d) => {
                d.info.status = status;
            },
            Model::TempHum(d) => {
                d.info.status = status;
            },
            Model::Unknown(d) => {
                d.info.status = status;
            },
        }
        let topic = self.info().status_topic();
        MqttMsg::retain(topic.as_str(), status.as_str())
    }

    /// The commands to send to the device right after enumeration.
    fn init(&mut self) -> (r: Vec<String>) {
        match self {
            Model::Controller2(d) => d.init(),
            _ => {
                let r: Vec<String> = Vec::new();
                assert(r.deep_view() =~= Seq::<Seq<char>>::empty());
                r
            },
        }
    }

    /// The retained publications that describe the device to its consumers.
    fn announce(&self) -> (r: Vec<MqttMsg>) {
        match self {
            Model::AirQuality(d) => d.announce(),
            Model::BinarySensor(d) => d.announce(),
            Model::Controller2(d) => d.announce(),
            Model::Dimmer(d) => d.announce(),
            Model::Hub(d) => d.announce(),
            Model::Shutter(d) => d.announce(),
            Model::Switch8(d) => d.announce(),
            Model::TempHum(d) => d.announce(),
            Model::Unknown(_) => {
                let r: Vec<MqttMsg> = Vec::new();
                assert(r.deep_view() =~= Seq::<MqttMsgView>::empty());
                r
            },
        }
    }

    /// The bus addresses for which the device wants the controller's messages.
    fn register_1wire(&self) -> (r: Vec<String>) {
        match self {
            Model::AirQuality(d) => d.register_1wire(),
            Model::BinarySensor(d) => d.register_1wire(),
            Model::Controller2(d) => d.register_1wire(),
            Model::Dimmer(d) => d.register_1wire(),
            Model::Hub(d) => d.register_1wire(),
            Model::Shutter(d) => d.register_1wire(),
            Model::Switch8(d) => d.register_1wire(),
            Model::TempHum(d) => d.register_1wire(),
            Model::Unknown(_) => {
                let r: Vec<String> = Vec::new();
                assert(r.deep_view() =~= Seq::<Seq<char>>::empty());
                r
            },
        }
    }

    /// Hands a controller message that arrived at `now`, a time in
    /// milliseconds, to the device.
    fn handle_1wire(&mut self, resp: OW, now: u64) -> (r: Result<TwoWay, Error>) {
        match self {
            Model::AirQuality(d) => d.handle_1wire(resp, now),
            Model::BinarySensor(d) => d.handle_1wire(resp, now),
            Model::Controller2(d) => d.handle_1wire(resp, now),
            Model::Dimmer(d) => d.handle_1wire(resp, now),
            Model::Hub(d) => d.handle_1wire(resp, now),
            Model::Shutter(d) => d.handle_1wire(resp, now),
            Model::Switch8(d) => d.handle_1wire(resp, now),
            Model::TempHum(d) => d.handle_1wire(resp, now),
            Model::Unknown(d) => d.handle_1wire(resp, now),
        }
    }

    /// The MQTT topics whose messages the device wants, each with its token.
    fn register_mqtt(&self) -> (r: Vec<(String, Token)>) {
        match self {
            Model::Controller2(d) => d.register_mqtt(),
            Model::Dimmer(d) => d.register_mqtt(),
            Model::Shutter(d) => d.register_mqtt(),
            Model::Switch8(d) => d.register_mqtt(),
            _ => {
                let r: Vec<(String, Token)> = Vec::new();
                assert(r.deep_view() =~= Seq::<(Seq<char>, Token)>::empty());
                r
            },
        }
    }

    /// Hands a publication that arrived with `token` to the device.
    fn handle_mqtt(&self, msg: &MqttMsg, token: Token) -> (r: Result<TwoWay, Error>) {
        match self {
            Model::Controller2(d) => d.handle_mqtt(msg, token),
            Model::Dimmer(d) => d.handle_mqtt(msg, token),
            Model::Shutter(d) => d.handle_mqtt(msg, token),
            Model::Switch8(d) => d.handle_mqtt(msg, token),
            _ => Ok(TwoWay::empty()),
        }
    }
}

} // verus!
