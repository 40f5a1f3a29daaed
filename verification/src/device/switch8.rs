//! Eight digital inputs and eight switched outputs.
use super::discovery::{
    announce_trigger, channel_label, channel_name, switch_announcement, switch_entity,
    trigger_announcement,
};
use super::{
    announce_device, bit_text, digital_io, digital_msgs, means_on, str2bool, AnnounceDeviceView,
    Device, Error, ErrorView, ModelView,
};
use crate::info::{DeviceInfo, DeviceInfoView};
use crate::message::{subaddr_of, Msg, MsgView, OWView, Status, OW};
use crate::mqtt::{MqttMsg, MqttMsgView};
use crate::routing::Token;
use crate::text::{decimal, push_decimal, signed_decimal, signed_text};
use crate::twoway::{TwoWay, TwoWayView};
use vstd::prelude::*;
use vstd::string::*;

verus! {

/// A switch module. `inputs` is the input word that was seen last, none before
/// the first one.
#[derive(Debug, Clone, PartialEq, Default)]
pub struct Switch8 {
    pub info: DeviceInfo,
    pub inputs: Option<i32>,
}

/// The command that sets output `ch0` (counted from 0) of device `devno`.
pub open spec fn out_command(devno: Seq<char>, ch0: nat, on: bool) -> Seq<char> {
    "SET,OWD,OUT,"@ + devno + ","@ + decimal(ch0) + ","@ + bit_text(on)
}

/// The content of a [`Switch8`].
pub struct Switch8View {
    pub info: DeviceInfoView,
    pub inputs: Option<i32>,
}

impl View for Switch8 {
    type V = Switch8View;

    open spec fn view(&self) -> Switch8View {
        Switch8View { info: self.info@, inputs: self.inputs }
    }
}

impl Switch8View {
    /// The module after a controller message.
    pub open spec fn after(self, resp: OWView) -> Switch8View {
        Switch8View { inputs: self.next_inputs(resp), ..self }
    }

    /// The bus addresses whose words the module can take: sub-address 1, the
    /// inputs, and 3, the outputs.
    pub open spec fn accepts(addr: Seq<char>) -> bool {
        subaddr_of(addr) == Some(1u8) || subaddr_of(addr) == Some(3u8)
    }

    /// What the module answers to a controller message. For an input word:
    /// the level of every input and, unless it is the first word, a button
    /// event for every input that changed. For an output word: the level of
    /// every output. A negative word is refused.
    pub open spec fn answer(self, resp: OWView) -> Result<TwoWayView, ErrorView> {
        match resp.msg {
            MsgView::Devstatus(s) => if s.val < 0 {
                Err(ErrorView::Value(signed_decimal(s.val as int)))
            } else if subaddr_of(s.addr) == Some(1u8) {
                Ok(
                    TwoWayView::of_mqtt(
                        digital_msgs(self.info, 8, "in"@, s.val, None) + match self.inputs {
                            Some(old) => digital_msgs(self.info, 8, "button"@, s.val, Some(old)),
                            None => Seq::empty(),
                        },
                    ),
                )
            } else {
                Ok(TwoWayView::of_mqtt(digital_msgs(self.info, 8, "out"@, s.val, None)))
            },
            _ => Ok(TwoWayView::empty()),
        }
    }

    /// The input word that the module remembers after a controller message.
    pub open spec fn next_inputs(self, resp: OWView) -> Option<i32> {
        match resp.msg {
            MsgView::Devstatus(s) => if s.val >= 0 && subaddr_of(s.addr) == Some(1u8) {
                Some(s.val)
            } else {
                self.inputs
            },
            _ => self.inputs,
        }
    }

    /// The announcements of the channels 1 to `n`: for each channel the
    /// triggers of its button for release and press, then its switch.
    pub open spec fn announcements(info: DeviceInfoView, n: nat) -> Seq<MqttMsgView>
        decreases n,
    {
        if n == 0 {
            Seq::empty()
        } else {
            let dev = AnnounceDeviceView::of(info, "Switch8"@);
            Self::announcements(info, (n - 1) as nat).push(
                trigger_announcement(info, dev, n, "short"@, "0"@),
            ).push(trigger_announcement(info, dev, n, "short"@, "1"@)).push(
                switch_announcement(info, dev, channel_name("Switch"@, info, n), n),
            )
        }
    }

    /// The command topics of the channels 1 to `n`, each with the channel's
    /// number counted from 0 as its token.
    pub open spec fn subscriptions(info: DeviceInfoView, n: nat) -> Seq<(Seq<char>, Token)>
        decreases n,
    {
        if n == 0 {
            Seq::empty()
        } else {
            Self::subscriptions(info, (n - 1) as nat).push(
                (info.channel_topic("set"@, n), (n - 1) as i32),
            )
        }
    }

    /// What the module sends for a command that arrived with `token`: the
    /// command that sets the output, if the token names one.
    pub open spec fn command(info: DeviceInfoView, payload: Seq<char>, token: Token) -> TwoWayView {
        if 0 <= token <= 7 {
            TwoWayView::of_1wire(out_command(info.devno(), token as nat, means_on(payload)))
        } else {
            TwoWayView::empty()
        }
    }

}

impl Switch8 {
    pub fn new(info: DeviceInfo) -> (r: Self)
        ensures
            r.info == info,
            r.inputs is None,
    {
        Switch8 { info, inputs: None }
    }
}

impl Device for Switch8 {
    open spec fn model_view(&self) -> ModelView {
        ModelView::Switch8(self@)
    }

    fn info(&self) -> &DeviceInfo {
        &self.info
    }

    fn model(&self) -> &'static str {
        "Switch8"
    }

    fn name(&self) -> &str {
        self.info.name()
    }

    fn configured(&self) -> bool {
        true
    }

    fn set_status(&mut self, status: Status) -> MqttMsg {
        self.info.status = status;
        MqttMsg::retain(self.info.status_topic().as_str(), status.as_str())
    }

    fn init(&mut self) -> Vec<String> {
        let r: Vec<String> = Vec::new();
        assert(r.deep_view() =~= Seq::<Seq<char>>::empty());
        r
    }

    /// Announces the buttons and switches of the eight channels.
    fn announce(&self) -> (r: Vec<MqttMsg>) {
        let dev = announce_device(&self.info, "Switch8");
        let mut r: Vec<MqttMsg> = Vec::new();
        let mut ch: u8 = 1;
        assert(r.deep_view() =~= Switch8View::announcements(self.info@, 0));
        while ch <= 8
            invariant
                1 <= ch <= 9,
                dev@ == AnnounceDeviceView::of(self.info@, "Switch8"@),
                r.deep_view() == Switch8View::announcements(self.info@, (ch - 1) as nat),
            decreases 9 - ch,
        {
            let released = announce_trigger(&self.info, &dev, ch, "short", "0");
            let pressed = announce_trigger(&self.info, &dev, ch, "short", "1");
            let switch = switch_entity(
                &self.info,
                &dev,
                channel_label("Switch", &self.info, ch).as_str(),
                ch,
            );
            let ghost before = r.deep_view();
            r.push(released);
            r.push(pressed);
            r.push(switch);
            assert(r.deep_view() =~= before.push(released@).push(pressed@).push(switch@));
            ch += 1;
        }
        r
    }

    /// The bus addresses of the module: sub-addresses 1 and 3.
    fn register_1wire(&self) -> (r: Vec<String>) {
        let subs: [u8; 2] = [1, 3];
        assert(subs@ =~= seq![1u8, 3u8]);
        self.info.mkbusaddrs(subs.as_slice())
    }

    /// Publishes levels and button events for a word of the module.
    fn handle_1wire(&mut self, resp: OW, _now: u64) -> (r: Result<TwoWay, Error>) {
        match resp.msg {
            Msg::Devstatus(s) => {
                if s.val < 0 {
                    return Err(Error::Value(signed_text(s.val as i64)));
                }
                match s.subaddr() {
                    Some(1) => {
                        let mut res = digital_io(&self.info, 8, "in", s.val, None);
                        match self.inputs {
                            Some(old) => {
                                res.append(digital_io(&self.info, 8, "button", s.val, Some(old)));
                            },
                            None => {
                                assert(res@.mqtt + Seq::<MqttMsgView>::empty() =~= res@.mqtt);
                            },
                        }
                        self.inputs = Some(s.val);
                        assert(res@.ow =~= Seq::<Seq<char>>::empty());
                        Ok(res)
                    },
                    _ => Ok(digital_io(&self.info, 8, "out", s.val, None)),
                }
            },
            _ => Ok(TwoWay::empty()),
        }
    }

    /// The command topics of the eight outputs.
    fn register_mqtt(&self) -> (r: Vec<(String, Token)>) {
        let mut r: Vec<(String, Token)> = Vec::new();
        let mut ch: u8 = 1;
        assert(r.deep_view() =~= Switch8View::subscriptions(self.info@, 0));
        while ch <= 8
            invariant
                1 <= ch <= 9,
                r.deep_view() == Switch8View::subscriptions(self.info@, (ch - 1) as nat),
            decreases 9 - ch,
        {
            let t = self.info.channel_topic("set", ch);
            let ghost before = r.deep_view();
            let ghost added = (t@, (ch - 1) as i32);
            r.push((t, (ch - 1) as i32));
            assert(r.deep_view() =~= before.push(added));
            ch += 1;
        }
        r
    }

    /// Turns a command for an output into the controller command that sets it.
    fn handle_mqtt(&self, msg: &MqttMsg, token: Token) -> (r: Result<TwoWay, Error>) {
        let pl = msg.payload();
        if 0 <= token && token <= 7 {
            let mut cmd = String::from_str("SET,OWD,OUT,");
            cmd.append(self.info.devno());
            cmd.append(",");
            push_decimal(&mut cmd, token as u64);
            cmd.append(",");
            cmd.append(super::bool2str(if str2bool(pl) { 1 } else { 0 }));
            Ok(TwoWay::from_1wire(cmd.as_str()))
        } else {
            Ok(TwoWay::empty())
        }
    }
}

} // verus!
