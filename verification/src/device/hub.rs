//! The hub: voltage and current of the 12 V and 5 V supplies.
use super::airquality::sensor_accepts;
use super::{
    announce_device, sensor_announcement, sensor_entity, sensor_reading, AnnounceDeviceView,
    Device, Error, ModelView,
};
use crate::info::{DeviceInfo, DeviceInfoView};
use crate::message::{Msg, Status, OW};
use crate::mqtt::{MqttMsg, MqttMsgView};
use crate::text::{decimal, push_decimal};
use crate::routing::Token;
use crate::twoway::TwoWay;
use vstd::prelude::*;
use vstd::string::*;

verus! {

#[derive(Debug, Clone, PartialEq, Default)]
pub struct Hub {
    pub info: DeviceInfo,
}

impl View for Hub {
    type V = DeviceInfoView;

    open spec fn view(&self) -> DeviceInfoView {
        self.info@
    }
}

/// `Hub.<contno> <measure> <voltage>V`: the name of an entity of the hub.
pub open spec fn hub_name(info: DeviceInfoView, measure: Seq<char>, voltage: nat) -> Seq<char> {
    "Hub."@ + decimal(info.contno as nat) + " "@ + measure + " "@ + decimal(voltage) + "V"@
}

impl Hub {
    /// The item under which a sub-address reports.
    pub open spec fn item(sub: u8) -> Option<Seq<char>> {
        match sub {
            1 => Some("cur_12"@),
            2 => Some("vcc_12"@),
            3 => Some("cur_5"@),
            4 => Some("vcc_5"@),
            _ => None,
        }
    }

    /// The bus addresses whose readings the hub can take.
    pub open spec fn accepts(addr: Seq<char>) -> bool {
        sensor_accepts(addr, |sub: u8| Self::item(sub))
    }

    /// The announcements of the hub's four entities: current and voltage of
    /// the 12 V supply, then of the 5 V supply.
    pub open spec fn announcements(info: DeviceInfoView) -> Seq<MqttMsgView> {
        let dev = AnnounceDeviceView::of(info, "Hub"@);
        seq![
            sensor_announcement(
                info,
                dev,
                hub_name(info, "current"@, 12),
                "cur_12"@,
                "current"@,
                "mA"@,
                300,
                false,
            ),
            sensor_announcement(
                info,
                dev,
                hub_name(info, "voltage"@, 12),
                "vcc_12"@,
                "voltage"@,
                "V"@,
                300,
                false,
            ),
            sensor_announcement(
                info,
                dev,
                hub_name(info, "current"@, 5),
                "cur_5"@,
                "current"@,
                "mA"@,
                300,
                false,
            ),
            sensor_announcement(
                info,
                dev,
                hub_name(info, "voltage"@, 5),
                "vcc_5"@,
                "voltage"@,
                "V"@,
                300,
                false,
            ),
        ]
    }

    pub fn new(info: DeviceInfo) -> (r: Self)
        ensures
            r.info == info,
    {
        Hub { info }
    }

    fn item_name(sub: u8) -> (r: Option<&'static str>)
        ensures
            match r {
                Some(s) => Self::item(sub) == Some(s@),
                None => Self::item(sub) is None,
            },
    {
        match sub {
            1 => Some("cur_12"),
            2 => Some("vcc_12"),
            3 => Some("cur_5"),
            4 => Some("vcc_5"),
            _ => None,
        }
    }

    fn entity_label(&self, measure: &str, voltage: u8) -> (s: String)
        ensures
            s@ == hub_name(self.info@, measure@, voltage as nat),
    {
        let mut s = String::from_str("Hub.");
        push_decimal(&mut s, self.info.contno as u64);
        s.append(" ");
        s.append(measure);
        s.append(" ");
        push_decimal(&mut s, voltage as u64);
        s.append("V");
        s
    }
}

impl Device for Hub {
    open spec fn model_view(&self) -> ModelView {
        ModelView::Hub(self@)
    }

    fn info(&self) -> &DeviceInfo {
        &self.info
    }

    fn model(&self) -> &'static str {
        "Hub"
    }

    fn name(&self) -> &str {
        self.info.name()
    }

    fn configured(&self) -> bool {
        true
    }

    fn set_status(&mut self, status: Status) -> MqttMsg {
        self.info.status = status;
        MqttMsg::retain(self.info.status_topic().as_str(), status.as_str())
    }

    fn init(&mut self) -> Vec<String> {
        let r: Vec<String> = Vec::new();
        assert(r.deep_view() =~= Seq::<Seq<char>>::empty());
        r
    }

    /// Announces the hub's entities.
    fn announce(&self) -> (r: Vec<MqttMsg>) {
        let dev = announce_device(&self.info, "Hub");
        let i = &self.info;
        let mut r: Vec<MqttMsg> = Vec::new();
        r.push(
            sensor_entity(
                i,
                &dev,
                self.entity_label("current", 12).as_str(),
                "cur_12",
                "current",
                "mA",
                300,
                false,
            ),
        );
        r.push(
            sensor_entity(
                i,
                &dev,
                self.entity_label("voltage", 12).as_str(),
                "vcc_12",
                "voltage",
                "V",
                300,
                false,
            ),
        );
        r.push(
            sensor_entity(
                i,
                &dev,
                self.entity_label("current", 5).as_str(),
                "cur_5",
                "current",
                "mA",
                300,
                false,
            ),
        );
        r.push(
            sensor_entity(
                i,
                &dev,
                self.entity_label("voltage", 5).as_str(),
                "vcc_5",
                "voltage",
                "V",
                300,
                false,
            ),
        );
        assert(r.deep_view() =~= Self::announcements(self.info@));
        r
    }

    /// The bus addresses of the hub: sub-addresses 1 to 4.
    fn register_1wire(&self) -> (r: Vec<String>) {
        let subs: [u8; 4] = [1, 2, 3, 4];
        assert(subs@ =~= seq![1u8, 2u8, 3u8, 4u8]);
        self.info.mkbusaddrs(subs.as_slice())
    }

    /// Publishes the reading that a device status carries.
    fn handle_1wire(&mut self, resp: OW, _now: u64) -> (r: Result<TwoWay, Error>) {
        match resp.msg {
            Msg::Devstatus(s) => match s.subaddr() {
                Some(sub) => match Self::item_name(sub) {
                    Some(item) => Ok(sensor_reading(&self.info, item, s.val)),
                    None => Ok(TwoWay::empty()),
                },
                None => Err(Error::BusId(s.addr)),
            },
            _ => Ok(TwoWay::empty()),
        }
    }

    fn register_mqtt(&self) -> Vec<(String, Token)> {
        let r: Vec<(String, Token)> = Vec::new();
        assert(r.deep_view() =~= Seq::<(Seq<char>, Token)>::empty());
        r
    }

    fn handle_mqtt(&self, _msg: &MqttMsg, _token: Token) -> Result<TwoWay, Error> {
        Ok(TwoWay::empty())
    }
}

} // verus!
