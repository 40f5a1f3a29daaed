//! Air sensors: temperature, humidity, dew point and more.
use super::{
    announce_device, entity_name, reading, sensor_announcement, sensor_entity, sensor_reading,
    AnnounceDeviceView, Device, Error, ErrorView, ModelView,
};
use crate::info::{DeviceInfo, DeviceInfoView};
use crate::message::{subaddr_of, Msg, MsgView, OWView, Status, OW};
use crate::mqtt::{MqttMsg, MqttMsgView};
use crate::routing::Token;
use crate::twoway::{TwoWay, TwoWayView};
use vstd::prelude::*;

verus! {

/// What a passive sensor answers to a controller message, given the item
/// under which each of its sub-addresses reports: the reading of a known
/// sub-address, an error for an address without sub-address, nothing for
/// another kind of message.
pub open spec fn sensor_answer(
    info: DeviceInfoView,
    resp: OWView,
    item: spec_fn(u8) -> Option<Seq<char>>,
) -> Result<TwoWayView, ErrorView> {
    match resp.msg {
        MsgView::Devstatus(s) => match subaddr_of(s.addr) {
            Some(sub) => match item(sub) {
                Some(i) => Ok(reading(info, i, s.val)),
                None => Ok(TwoWayView::empty()),
            },
            None => Err(ErrorView::BusId(s.addr)),
        },
        _ => Ok(TwoWayView::empty()),
    }
}

/// The bus addresses whose readings a passive sensor can take: those without
/// a sub-address (they are refused) and those with one that it knows.
pub open spec fn sensor_accepts(addr: Seq<char>, item: spec_fn(u8) -> Option<Seq<char>>) -> bool {
    subaddr_of(addr) matches Some(sub) ==> item(sub) is Some
}

/// An air-quality sensor: temperature, supply voltage, humidity, dew point
/// and carbon dioxide.
#[derive(Debug, Clone, PartialEq, Default)]
pub struct AirQuality {
    pub info: DeviceInfo,
}

impl View for AirQuality {
    type V = DeviceInfoView;

    open spec fn view(&self) -> DeviceInfoView {
        self.info@
    }
}

impl AirQuality {
    /// The item under which a sub-address reports.
    pub open spec fn item(sub: u8) -> Option<Seq<char>> {
        match sub {
            1 => Some("temp"@),
            2 => Some("vdd"@),
            3 => Some("hum"@),
            4 => Some("dew"@),
            5 => Some("co2"@),
            _ => None,
        }
    }

    /// The bus addresses whose readings the sensor can take.
    pub open spec fn accepts(addr: Seq<char>) -> bool {
        sensor_accepts(addr, |sub: u8| Self::item(sub))
    }

    /// The announcements of the sensor's five entities.
    pub open spec fn announcements(info: DeviceInfoView) -> Seq<MqttMsgView> {
        let dev = AnnounceDeviceView::of(info, "AirQuality"@);
        let n = info.name();
        seq![
            sensor_announcement(
                info,
                dev,
                n + " "@ + "Temperature"@,
                "temp"@,
                "temperature"@,
                "°C"@,
                600,
                true,
            ),
            sensor_announcement(info, dev, n + " "@ + "Vdd"@, "vdd"@, "voltage"@, "V"@, 600, true),
            sensor_announcement(
                info,
                dev,
                n + " "@ + "Humidity"@,
                "hum"@,
                "humidity"@,
                "%"@,
                600,
                true,
            ),
            sensor_announcement(
                info,
                dev,
                n + " "@ + "Dewpoint"@,
                "dew"@,
                "temperature"@,
                "°C"@,
                600,
                true,
            ),
            sensor_announcement(info, dev, n + " "@ + "CO2"@, "co2"@, "pressure"@, "ppm"@, 600, true),
        ]
    }

    pub fn new(info: DeviceInfo) -> (r: Self)
        ensures
            r.info == info,
    {
        AirQuality { info }
    }

    fn item_name(sub: u8) -> (r: Option<&'static str>)
        ensures
            match r {
                Some(s) => Self::item(sub) == Some(s@),
                None => Self::item(sub) is None,
            },
    {
        match sub {
            1 => Some("temp"),
            2 => Some("vdd"),
            3 => Some("hum"),
            4 => Some("dew"),
            5 => Some("co2"),
            _ => None,
        }
    }
}

impl Device for AirQuality {
    open spec fn model_view(&self) -> ModelView {
        ModelView::AirQuality(self@)
    }

    fn info(&self) -> &DeviceInfo {
        &self.info
    }

    fn model(&self) -> &'static str {
        "AirQuality"
    }

    fn name(&self) -> &str {
        self.info.name()
    }

    fn configured(&self) -> bool {
        true
    }

    fn set_status(&mut self, status: Status) -> MqttMsg {
        self.info.status = status;
        MqttMsg::retain(self.info.status_topic().as_str(), status.as_str())
    }

    fn init(&mut self) -> Vec<String> {
        let r: Vec<String> = Vec::new();
        assert(r.deep_view() =~= Seq::<Seq<char>>::empty());
        r
    }

    /// Announces the sensor's entities.
    fn announce(&self) -> (r: Vec<MqttMsg>) {
        let dev = announce_device(&self.info, "AirQuality");
        let i = &self.info;
        let mut r: Vec<MqttMsg> = Vec::new();
        r.push(
            sensor_entity(
                i,
                &dev,
                entity_name(i, "Temperature").as_str(),
                "temp",
                "temperature",
                "°C",
                600,
                true,
            ),
        );
        r.push(
            sensor_entity(i, &dev, entity_name(i, "Vdd").as_str(), "vdd", "voltage", "V", 600, true),
        );
        r.push(
            sensor_entity(
                i,
                &dev,
                entity_name(i, "Humidity").as_str(),
                "hum",
                "humidity",
                "%",
                600,
                true,
            ),
        );
        r.push(
            sensor_entity(
                i,
                &dev,
                entity_name(i, "Dewpoint").as_str(),
                "dew",
                "temperature",
                "°C",
                600,
                true,
            ),
        );
        r.push(
            sensor_entity(i, &dev, entity_name(i, "CO2").as_str(), "co2", "pressure", "ppm", 600, true),
        );
        assert(r.deep_view() =~= Self::announcements(self.info@));
        r
    }

    /// The bus addresses of the sensor: sub-addresses 1 to 5.
    fn register_1wire(&self) -> (r: Vec<String>) {
        let subs: [u8; 5] = [1, 2, 3, 4, 5];
        assert(subs@ =~= seq![1u8, 2u8, 3u8, 4u8, 5u8]);
        self.info.mkbusaddrs(subs.as_slice())
    }

    /// Publishes the reading that a device status carries.
    fn handle_1wire(&mut self, resp: OW, _now: u64) -> (r: Result<TwoWay, Error>) {
        match resp.msg {
            Msg::Devstatus(s) => match s.subaddr() {
                Some(sub) => match Self::item_name(sub) {
                    Some(item) => Ok(sensor_reading(&self.info, item, s.val)),
                    None => Ok(TwoWay::empty()),
                },
                None => Err(Error::BusId(s.addr)),
            },
            _ => Ok(TwoWay::empty()),
        }
    }

    fn register_mqtt(&self) -> Vec<(String, Token)> {
        let r: Vec<(String, Token)> = Vec::new();
        assert(r.deep_view() =~= Seq::<(Seq<char>, Token)>::empty());
        r
    }

    fn handle_mqtt(&self, _msg: &MqttMsg, _token: Token) -> Result<TwoWay, Error> {
        Ok(TwoWay::empty())
    }
}

/// A sensor of temperature, supply voltage, humidity and dew point.
#[derive(Debug, Clone, PartialEq, Default)]
pub struct TempHum {
    pub info: DeviceInfo,
}

impl View for TempHum {
    type V = DeviceInfoView;

    open spec fn view(&self) -> DeviceInfoView {
        self.info@
    }
}

impl TempHum {
    /// The item under which a sub-address reports.
    pub open spec fn item(sub: u8) -> Option<Seq<char>> {
        match sub {
            1 => Some("temp"@),
            2 => Some("vdd"@),
            3 => Some("hum"@),
            4 => Some("dew"@),
            _ => None,
        }
    }

    /// The bus addresses whose readings the sensor can take.
    pub open spec fn accepts(addr: Seq<char>) -> bool {
        sensor_accepts(addr, |sub: u8| Self::item(sub))
    }

    /// The announcements of the sensor's four entities.
    pub open spec fn announcements(info: DeviceInfoView) -> Seq<MqttMsgView> {
        let dev = AnnounceDeviceView::of(info, "TempHum"@);
        let n = info.name();
        seq![
            sensor_announcement(
                info,
                dev,
                n + " "@ + "Temperature"@,
                "temp"@,
                "temperature"@,
                "°C"@,
                600,
                true,
            ),
            sensor_announcement(info, dev, n + " "@ + "Vdd"@, "vdd"@, "voltage"@, "V"@, 600, true),
            sensor_announcement(
                info,
                dev,
                n + " "@ + "Humidity"@,
                "hum"@,
                "humidity"@,
                "%"@,
                600,
                true,
            ),
            sensor_announcement(
                info,
                dev,
                n + " "@ + "Dewpoint"@,
                "dew"@,
                "temperature"@,
                "°C"@,
                600,
                true,
            ),
        ]
    }

    pub fn new(info: DeviceInfo) -> (r: Self)
        ensures
            r.info == info,
    {
        TempHum { info }
    }

    fn item_name(sub: u8) -> (r: Option<&'static str>)
        ensures
            match r {
                Some(s) => Self::item(sub) == Some(s@),
                None => Self::item(sub) is None,
            },
    {
        match sub {
            1 => Some("temp"),
            2 => Some("vdd"),
            3 => Some("hum"),
            4 => Some("dew"),
            _ => None,
        }
    }
}

impl Device for TempHum {
    open spec fn model_view(&self) -> ModelView {
        ModelView::TempHum(self@)
    }

    fn info(&self) -> &DeviceInfo {
        &self.info
    }

    fn model(&self) -> &'static str {
        "TempHum"
    }

    fn name(&self) -> &str {
        self.info.name()
    }

    fn configured(&self) -> bool {
        true
    }

    fn set_status(&mut self, status: Status) -> MqttMsg {
        self.info.status = status;
        MqttMsg::retain(self.info.status_topic().as_str(), status.as_str())
    }

    fn init(&mut self) -> Vec<String> {
        let r: Vec<String> = Vec::new();
        assert(r.deep_view() =~= Seq::<Seq<char>>::empty());
        r
    }

    /// Announces the sensor's entities.
    fn announce(&self) -> (r: Vec<MqttMsg>) {
        let dev = announce_device(&self.info, "TempHum");
        let i = &self.info;
        let mut r: Vec<MqttMsg> = Vec::new();
        r.push(
            sensor_entity(
                i,
                &dev,
                entity_name(i, "Temperature").as_str(),
                "temp",
                "temperature",
                "°C",
                600,
                true,
            ),
        );
        r.push(
            sensor_entity(i, &dev, entity_name(i, "Vdd").as_str(), "vdd", "voltage", "V", 600, true),
        );
        r.push(
            sensor_entity(
                i,
                &dev,
                entity_name(i, "Humidity").as_str(),
                "hum",
                "humidity",
                "%",
                600,
                true,
            ),
        );
        r.push(
            sensor_entity(
                i,
                &dev,
                entity_name(i, "Dewpoint").as_str(),
                "dew",
                "temperature",
                "°C",
                600,
                true,
            ),
        );
        assert(r.deep_view() =~= Self::announcements(self.info@));
        r
    }

    /// The bus addresses of the sensor: sub-addresses 1 to 4.
    fn register_1wire(&self) -> (r: Vec<String>) {
        let subs: [u8; 4] = [1, 2, 3, 4];
        assert(subs@ =~= seq![1u8, 2u8, 3u8, 4u8]);
        self.info.mkbusaddrs(subs.as_slice())
    }

    /// Publishes the reading that a device status carries.
    fn handle_1wire(&mut self, resp: OW, _now: u64) -> (r: Result<TwoWay, Error>) {
        match resp.msg {
            Msg::Devstatus(s) => match s.subaddr() {
                Some(sub) => match Self::item_name(sub) {
                    Some(item) => Ok(sensor_reading(&self.info, item, s.val)),
                    None => Ok(TwoWay::empty()),
                },
                None => Err(Error::BusId(s.addr)),
            },
            _ => Ok(TwoWay::empty()),
        }
    }

    fn register_mqtt(&self) -> Vec<(String, Token)> {
        let r: Vec<(String, Token)> = Vec::new();
        assert(r.deep_view() =~= Seq::<(Seq<char>, Token)>::empty());
        r
    }

    fn handle_mqtt(&self, _msg: &MqttMsg, _token: Token) -> Result<TwoWay, Error> {
        Ok(TwoWay::empty())
    }
}

} // verus!
