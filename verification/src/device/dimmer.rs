//! Two dimmed lights with a button each.
use super::discovery::{
    announce_trigger, channel_label, channel_name, label, trigger_announcement,
};
use super::{
    announce_device, bit_of, bit_text, bool2str, disc_topic, disc_topic_of, AnnounceDevice,
    AnnounceDeviceView, Device, Error, ErrorView, ModelView,
};
use crate::info::{DeviceInfo, DeviceInfoView};
use crate::json::{
    json_object, json_string, new_object, no_fields, object_text, put_int, put_object, put_str,
    Fields,
};
use crate::message::{subaddr_of, Msg, MsgView, OWView, Status, OW};
use crate::mqtt::{publication, retained, MqttMsg, MqttMsgView};
use crate::routing::Token;
use crate::text::{
    decimal, parse_unsigned, push_decimal, signed_decimal, signed_text, unsigned_of,
};
use crate::twoway::{TwoWay, TwoWayView};
use vstd::prelude::*;
use vstd::string::*;

verus! {

#[derive(Debug, Clone, PartialEq, Default)]
pub struct Dimmer {
    pub info: DeviceInfo,
}

impl View for Dimmer {
    type V = DeviceInfoView;

    open spec fn view(&self) -> DeviceInfoView {
        self.info@
    }
}

/// The command that sets light `ch` of device `devno` to brightness `val`.
pub open spec fn dim_command(devno: Seq<char>, ch: nat, val: nat) -> Seq<char> {
    "SET,OWD,DIM,"@ + devno + ","@ + decimal(ch) + ","@ + decimal(val)
}

impl Dimmer {
    /// What the dimmer answers to a controller message: the levels of its
    /// two buttons for sub-address 1, the brightness of light 1 or 2 for
    /// sub-address 3 or 4, nothing for anything else.
    pub open spec fn answer(info: DeviceInfoView, resp: OWView) -> TwoWayView {
        match resp.msg {
            MsgView::Devstatus(s) => match subaddr_of(s.addr) {
                Some(sub) => if sub == 1 {
                    TwoWayView::of_mqtt(
                        seq![
                            publication(info.channel_topic("in"@, 1), bit_text(bit_of(s.val, 0))),
                            publication(info.channel_topic("in"@, 2), bit_text(bit_of(s.val, 1))),
                        ],
                    )
                } else if sub == 3 || sub == 4 {
                    TwoWayView::of_mqtt(
                        seq![
                            publication(
                                info.channel_topic("out"@, (sub - 2) as nat),
                                signed_decimal(s.val as int),
                            ),
                        ],
                    )
                } else {
                    TwoWayView::empty()
                },
                None => TwoWayView::empty(),
            },
            _ => TwoWayView::empty(),
        }
    }

    /// The discovery document of light `ch`, with 31 steps of brightness.
    pub open spec fn light_fields(info: DeviceInfoView, dev: AnnounceDeviceView, ch: nat) -> Fields {
        no_fields().insert("availability_topic"@, json_string(info.status_topic())).insert(
            "brightness_command_topic"@,
            json_string(info.channel_topic("set"@, ch)),
        ).insert("command_topic"@, json_string(info.channel_topic("set"@, ch))).insert(
            "brightness_scale"@,
            signed_decimal(31),
        ).insert("brightness_state_topic"@, json_string(info.channel_topic("out"@, ch))).insert(
            "device"@,
            dev.text(),
        ).insert("name"@, json_string(channel_name("Dimmer"@, info, ch))).insert(
            "payload_on"@,
            json_string("1"@),
        ).insert("payload_off"@, json_string("0"@)).insert(
            "state_value_template"@,
            json_string("{% if value != '0' %}1{% else %}0{% endif %}"@),
        ).insert("state_topic"@, json_string(info.channel_topic("out"@, ch))).insert(
            "on_command_type"@,
            json_string("brightness"@),
        ).insert("unique_id"@, json_string(info.serno + "_ch"@ + decimal(ch)))
    }

    /// The announcements of the channels 1 to `n`: for each channel the
    /// triggers of its button for release and press, then its light.
    pub open spec fn announcements(info: DeviceInfoView, n: nat) -> Seq<MqttMsgView>
        decreases n,
    {
        if n == 0 {
            Seq::empty()
        } else {
            let dev = AnnounceDeviceView::of(info, "Dimmer"@);
            Self::announcements(info, (n - 1) as nat).push(
                trigger_announcement(info, dev, n, "short"@, "0"@),
            ).push(trigger_announcement(info, dev, n, "short"@, "1"@)).push(
                retained(
                    disc_topic_of("light"@, info, "ch"@ + decimal(n)),
                    json_object(Self::light_fields(info, dev, n)),
                ),
            )
        }
    }

    /// The command topics of the two lights, with the light's number as token.
    pub open spec fn subscriptions(info: DeviceInfoView) -> Seq<(Seq<char>, Token)> {
        seq![(info.channel_topic("set"@, 1), 1i32), (info.channel_topic("set"@, 2), 2i32)]
    }

    /// What the dimmer does with a command that arrived with `token`: a
    /// payload that is no number up to 255 is refused; a brightness below 32
    /// for light 1 or 2 is sent on; anything else is dropped.
    pub open spec fn command(info: DeviceInfoView, payload: Seq<char>, token: Token) -> Result<
        TwoWayView,
        ErrorView,
    > {
        match unsigned_of(payload, 255) {
            Some(val) => if 1 <= token <= 2 && val < 32 {
                Ok(TwoWayView::of_1wire(dim_command(info.devno(), token as nat, val)))
            } else {
                Ok(TwoWayView::empty())
            },
            None => Err(ErrorView::Value("0..32"@)),
        }
    }

    pub fn new(info: DeviceInfo) -> (r: Self)
        ensures
            r.info == info,
    {
        Dimmer { info }
    }

    fn light_entity(&self, dev: &AnnounceDevice, ch: u8) -> (m: MqttMsg)
        ensures
            m@ == retained(
                disc_topic_of("light"@, self.info@, "ch"@ + decimal(ch as nat)),
                json_object(Self::light_fields(self.info@, dev@, ch as nat)),
            ),
    {
        let info = &self.info;
        let set = info.channel_topic("set", ch);
        let out = info.channel_topic("out", ch);
        let mut doc = new_object();
        put_str(&mut doc, "availability_topic", info.status_topic().as_str());
        put_str(&mut doc, "brightness_command_topic", set.as_str());
        put_str(&mut doc, "command_topic", set.as_str());
        put_int(&mut doc, "brightness_scale", 31);
        put_str(&mut doc, "brightness_state_topic", out.as_str());
        put_object(&mut doc, "device", dev.to_json());
        put_str(&mut doc, "name", channel_label("Dimmer", info, ch).as_str());
        put_str(&mut doc, "payload_on", "1");
        put_str(&mut doc, "payload_off", "0");
        put_str(&mut doc, "state_value_template", "{% if value != '0' %}1{% else %}0{% endif %}");
        put_str(&mut doc, "state_topic", out.as_str());
        put_str(&mut doc, "on_command_type", "brightness");
        let mut id = info.serno.clone();
        id.append("_ch");
        push_decimal(&mut id, ch as u64);
        put_str(&mut doc, "unique_id", id.as_str());
        let topic = disc_topic("light", info, label("ch", ch).as_str());
        MqttMsg::retain(topic.as_str(), object_text(doc).as_str())
    }
}

impl Device for Dimmer {
    open spec fn model_view(&self) -> ModelView {
        ModelView::Dimmer(self@)
    }

    fn info(&self) -> &DeviceInfo {
        &self.info
    }

    fn model(&self) -> &'static str {
        "Dimmer"
    }

    fn name(&self) -> &str {
        self.info.name()
    }

    fn configured(&self) -> bool {
        true
    }

    fn set_status(&mut self, status: Status) -> MqttMsg {
        self.info.status = status;
        MqttMsg::retain(self.info.status_topic().as_str(), status.as_str())
    }

    fn init(&mut self) -> Vec<String> {
        let r: Vec<String> = Vec::new();
        assert(r.deep_view() =~= Seq::<Seq<char>>::empty());
        r
    }

    /// Announces the buttons and lights of the two channels.
    fn announce(&self) -> (r: Vec<MqttMsg>) {
        let dev = announce_device(&self.info, "Dimmer");
        let mut r: Vec<MqttMsg> = Vec::new();
        let mut ch: u8 = 1;
        assert(r.deep_view() =~= Self::announcements(self.info@, 0));
        while ch <= 2
            invariant
                1 <= ch <= 3,
                dev@ == AnnounceDeviceView::of(self.info@, "Dimmer"@),
                r.deep_view() == Self::announcements(self.info@, (ch - 1) as nat),
            decreases 3 - ch,
        {
            let released = announce_trigger(&self.info, &dev, ch, "short", "0");
            let pressed = announce_trigger(&self.info, &dev, ch, "short", "1");
            let light = self.light_entity(&dev, ch);
            let ghost before = r.deep_view();
            r.push(released);
            r.push(pressed);
            r.push(light);
            assert(r.deep_view() =~= before.push(released@).push(pressed@).push(light@));
            ch += 1;
        }
        r
    }

    /// The bus addresses of the dimmer: sub-addresses 1, 3 and 4.
    fn register_1wire(&self) -> (r: Vec<String>) {
        let subs: [u8; 3] = [1, 3, 4];
        assert(subs@ =~= seq![1u8, 3u8, 4u8]);
        self.info.mkbusaddrs(subs.as_slice())
    }

    /// Publishes button levels and brightness.
    fn handle_1wire(&mut self, resp: OW, _now: u64) -> (r: Result<TwoWay, Error>) {
        match resp.msg {
            Msg::Devstatus(s) => match s.subaddr() {
                Some(1) => {
                    let word: u32 = #[verifier::truncate] (s.val as u32);
                    let mut res = TwoWay::empty();
                    res.push_mqtt(
                        MqttMsg::new(
                            self.info.channel_topic("in", 1).as_str(),
                            bool2str(word & (1u32 << 0u32)),
                        ),
                    );
                    res.push_mqtt(
                        MqttMsg::new(
                            self.info.channel_topic("in", 2).as_str(),
                            bool2str(word & (1u32 << 1u32)),
                        ),
                    );
                    assert(res@.mqtt =~= Self::answer(old(self).info@, resp@).mqtt);
                    Ok(res)
                },
                Some(sub) => {
                    if sub == 3 || sub == 4 {
                        Ok(
                            TwoWay::from_mqtt(
                                MqttMsg::new(
                                    self.info.channel_topic("out", sub - 2).as_str(),
                                    signed_text(s.val as i64).as_str(),
                                ),
                            ),
                        )
                    } else {
                        Ok(TwoWay::empty())
                    }
                },
                None => Ok(TwoWay::empty()),
            },
            _ => Ok(TwoWay::empty()),
        }
    }

    /// The command topics of the two lights.
    fn register_mqtt(&self) -> (r: Vec<(String, Token)>) {
        let mut r: Vec<(String, Token)> = Vec::new();
        r.push((self.info.channel_topic("set", 1), 1));
        r.push((self.info.channel_topic("set", 2), 2));
        assert(r.deep_view() =~= Self::subscriptions(self.info@));
        r
    }

    /// Turns a brightness command into the controller command that sets it.
    fn handle_mqtt(&self, msg: &MqttMsg, token: Token) -> (r: Result<TwoWay, Error>) {
        let val = match parse_unsigned(msg.payload(), 255) {
            Some(v) => v,
            None => {
                return Err(Error::Value(String::from_str("0..32")));
            },
        };
        if 1 <= token && token <= 2 && val < 32 {
            let mut cmd = String::from_str("SET,OWD,DIM,");
            cmd.append(self.info.devno());
            cmd.append(",");
            push_decimal(&mut cmd, token as u64);
            cmd.append(",");
            push_decimal(&mut cmd, val);
            Ok(TwoWay::from_1wire(cmd.as_str()))
        } else {
            Ok(TwoWay::empty())
        }
    }
}

} // verus!
