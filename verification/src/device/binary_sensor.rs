//! Eight digital inputs.
use super::discovery::{channel_label, channel_name, input_announcement, input_entity, label};
use super::{
    announce_device, digital_io, digital_msgs, AnnounceDeviceView, Device, Error, ErrorView,
    ModelView,
};
use crate::info::{DeviceInfo, DeviceInfoView};
use crate::message::{subaddr_of, Msg, MsgView, OWView, Status, OW};
use crate::mqtt::{MqttMsg, MqttMsgView};
use crate::routing::Token;
use crate::text::{decimal, signed_decimal, signed_text};
use crate::twoway::{TwoWay, TwoWayView};
use vstd::prelude::*;

verus! {

#[derive(Debug, Clone, PartialEq, Default)]
pub struct BinarySensor {
    pub info: DeviceInfo,
}

impl View for BinarySensor {
    type V = DeviceInfoView;

    open spec fn view(&self) -> DeviceInfoView {
        self.info@
    }
}

impl BinarySensor {
    /// The bus addresses whose words the sensor can take: sub-address 1.
    pub open spec fn accepts(addr: Seq<char>) -> bool {
        subaddr_of(addr) == Some(1u8)
    }

    /// What the sensor answers to a controller message: the levels of its
    /// eight inputs for a word that is not negative, an error for one that is.
    pub open spec fn answer(info: DeviceInfoView, resp: OWView) -> Result<TwoWayView, ErrorView> {
        match resp.msg {
            MsgView::Devstatus(s) => if s.val < 0 {
                Err(ErrorView::Value(signed_decimal(s.val as int)))
            } else {
                Ok(TwoWayView::of_mqtt(digital_msgs(info, 8, "in"@, s.val, None)))
            },
            _ => Ok(TwoWayView::empty()),
        }
    }

    /// The announcements of the inputs 1 to `n`.
    pub open spec fn announcements(info: DeviceInfoView, n: nat) -> Seq<MqttMsgView>
        decreases n,
    {
        if n == 0 {
            Seq::empty()
        } else {
            Self::announcements(info, (n - 1) as nat).push(
                input_announcement(
                    info,
                    AnnounceDeviceView::of(info, "BinarySensor"@),
                    "ch"@ + decimal(n),
                    channel_name("In"@, info, n),
                    n,
                    "ch"@ + decimal(n),
                    Some(300),
                ),
            )
        }
    }

    pub fn new(info: DeviceInfo) -> (r: Self)
        ensures
            r.info == info,
    {
        BinarySensor { info }
    }
}

impl Device for BinarySensor {
    open spec fn model_view(&self) -> ModelView {
        ModelView::BinarySensor(self@)
    }

    fn info(&self) -> &DeviceInfo {
        &self.info
    }

    fn model(&self) -> &'static str {
        "BinarySensor"
    }

    fn name(&self) -> &str {
        self.info.name()
    }

    fn configured(&self) -> bool {
        true
    }

    fn set_status(&mut self, status: Status) -> MqttMsg {
        self.info.status = status;
        MqttMsg::retain(self.info.status_topic().as_str(), status.as_str())
    }

    fn init(&mut self) -> Vec<String> {
        let r: Vec<String> = Vec::new();
        assert(r.deep_view() =~= Seq::<Seq<char>>::empty());
        r
    }

    /// Announces the eight inputs.
    fn announce(&self) -> (r: Vec<MqttMsg>) {
        let dev = announce_device(&self.info, "BinarySensor");
        let mut r: Vec<MqttMsg> = Vec::new();
        let mut ch: u8 = 1;
        assert(r.deep_view() =~= Self::announcements(self.info@, 0));
        while ch <= 8
            invariant
                1 <= ch <= 9,
                dev@ == AnnounceDeviceView::of(self.info@, "BinarySensor"@),
                r.deep_view() == Self::announcements(self.info@, (ch - 1) as nat),
            decreases 9 - ch,
        {
            let id = label("ch", ch);
            let m = input_entity(
                &self.info,
                &dev,
                id.as_str(),
                channel_label("In", &self.info, ch).as_str(),
                ch,
                id.as_str(),
                Some(300),
            );
            let ghost before = r.deep_view();
            r.push(m);
            assert(r.deep_view() =~= before.push(m@));
            ch += 1;
        }
        r
    }

    /// The bus address of the sensor: sub-address 1.
    fn register_1wire(&self) -> (r: Vec<String>) {
        let subs: [u8; 1] = [1];
        assert(subs@ =~= seq![1u8]);
        self.info.mkbusaddrs(subs.as_slice())
    }

    /// Publishes the levels of the inputs.
    fn handle_1wire(&mut self, resp: OW, _now: u64) -> (r: Result<TwoWay, Error>) {
        match resp.msg {
            Msg::Devstatus(s) => {
                if s.val < 0 {
                    Err(Error::Value(signed_text(s.val as i64)))
                } else {
                    Ok(digital_io(&self.info, 8, "in", s.val, None))
                }
            },
            _ => Ok(TwoWay::empty()),
        }
    }

    fn register_mqtt(&self) -> Vec<(String, Token)> {
        let r: Vec<(String, Token)> = Vec::new();
        assert(r.deep_view() =~= Seq::<(Seq<char>, Token)>::empty());
        r
    }

    fn handle_mqtt(&self, _msg: &MqttMsg, _token: Token) -> Result<TwoWay, Error> {
        Ok(TwoWay::empty())
    }
}

} // verus!
