//! The controller itself: four inputs, five outputs, one analog output.
use super::discovery::{
    announce_trigger, controller_label, controller_name, input_announcement, input_entity, label,
    switch_announcement, switch_entity, trigger_announcement,
};
use super::{
    announce_device, bit_text, bool2str, digital_io, digital_msgs, disc_topic, disc_topic_of,
    means_on, reading, sensor_reading, str2bool, AnnounceDevice, AnnounceDeviceView, Device,
    Error, ErrorView, ModelView,
};
use crate::info::{DeviceInfo, DeviceInfoView};
use crate::json::{
    json_object, json_reading, json_string, new_object, no_fields, object_text, put_json,
    put_object, put_str, Fields,
};
use crate::message::{Msg, MsgView, OWView, Status, DIO, OW};
use crate::mqtt::{publication, retained, MqttMsg, MqttMsgView};
use crate::routing::Token;
use crate::text::{
    decimal, decimal_of, parse_decimal, push_decimal, signed_decimal, signed_text, str_eq,
};
use crate::twoway::{TwoWay, TwoWayView};
use vstd::prelude::*;
use vstd::string::*;

verus! {

/// The controller board. `inputs` is the input word that was seen last, 0
/// before the first one.
#[derive(Debug, Clone, PartialEq)]
pub struct Controller2 {
    pub info: DeviceInfo,
    pub dio: DIO,
    pub sw_version: String,
    pub inputs: i32,
}

/// How long a button of the controller is pressed: on an edge a press is
/// short, on a level it is long.
pub open spec fn press_length(dio: DIO) -> Seq<char> {
    if dio.is_edge() {
        "short"@
    } else {
        "long"@
    }
}

/// The content of a [`Controller2`].
pub struct Controller2View {
    pub info: DeviceInfoView,
    pub dio: DIO,
    pub sw_version: Seq<char>,
    pub inputs: i32,
}

impl View for Controller2 {
    type V = Controller2View;

    open spec fn view(&self) -> Controller2View {
        Controller2View {
            info: self.info@,
            dio: self.dio,
            sw_version: self.sw_version@,
            inputs: self.inputs,
        }
    }
}

impl Controller2View {
    /// A controller of which only its info is known yet.
    pub open spec fn fresh(info: DeviceInfoView) -> Controller2View {
        Controller2View { info, dio: DIO::IndependentLevel, sw_version: Seq::empty(), inputs: 0 }
    }

    /// The controller after a message.
    pub open spec fn after(self, resp: OWView) -> Controller2View {
        Controller2View {
            info: self.info,
            dio: self.next_dio(resp),
            sw_version: self.next_sw_version(resp),
            inputs: self.next_inputs(resp),
        }
    }

    /// The bus addresses whose values the controller can take.
    pub open spec fn accepts(addr: Seq<char>) -> bool {
        addr == "SYS1_1"@ || addr == "SYS2_1"@ || addr == "SYS3"@
    }

    /// How the controller presents itself: with its firmware version, and
    /// below no other device.
    pub open spec fn device(info: DeviceInfoView, sw_version: Seq<char>) -> AnnounceDeviceView {
        AnnounceDeviceView {
            sw_version: Some(sw_version),
            via_device: None,
            ..AnnounceDeviceView::of(info, "Controller2"@)
        }
    }

    /// The announcements of the inputs 1 to `n`: for each the triggers of its
    /// button for release and press, then its binary sensor.
    pub open spec fn input_announcements(
        info: DeviceInfoView,
        dev: AnnounceDeviceView,
        dur: Seq<char>,
        n: nat,
    ) -> Seq<MqttMsgView>
        decreases n,
    {
        if n == 0 {
            Seq::empty()
        } else {
            Self::input_announcements(info, dev, dur, (n - 1) as nat).push(
                trigger_announcement(info, dev, n, dur, "0"@),
            ).push(trigger_announcement(info, dev, n, dur, "1"@)).push(
                input_announcement(
                    info,
                    dev,
                    "button_"@ + decimal(n),
                    controller_name(info, "in "@ + decimal(n)),
                    n,
                    "in"@ + decimal(n),
                    None,
                ),
            )
        }
    }

    /// The announcements of the outputs 1 to `n`, a switch each.
    pub open spec fn output_announcements(info: DeviceInfoView, dev: AnnounceDeviceView, n: nat) -> Seq<
        MqttMsgView,
    >
        decreases n,
    {
        if n == 0 {
            Seq::empty()
        } else {
            Self::output_announcements(info, dev, (n - 1) as nat).push(
                switch_announcement(info, dev, controller_name(info, "out "@ + decimal(n)), n),
            )
        }
    }

    /// The discovery document of the analog output: a light whose brightness
    /// runs from 0 to 10.
    pub open spec fn analog_fields(info: DeviceInfoView, dev: AnnounceDeviceView) -> Fields {
        no_fields().insert("availability_topic"@, json_string(info.status_topic())).insert(
            "brightness_command_topic"@,
            json_string(info.topic("set/ana"@)),
        ).insert("brightness_state_topic"@, json_string(info.topic("out/ana"@))).insert(
            "brightness_scale"@,
            json_reading("10.0"@),
        ).insert("device"@, dev.text()).insert(
            "command_topic"@,
            json_string(info.topic("set/ana"@)),
        ).insert("name"@, json_string(controller_name(info, "analog out"@))).insert(
            "unique_id"@,
            json_string(info.serno + "_ana"@),
        )
    }

    /// The announcements of the controller: its four inputs, its five
    /// outputs, its analog output.
    pub open spec fn announcements(info: DeviceInfoView, dio: DIO, sw_version: Seq<char>) -> Seq<
        MqttMsgView,
    > {
        let dev = Self::device(info, sw_version);
        Self::input_announcements(info, dev, press_length(dio), 4) + Self::output_announcements(
            info,
            dev,
            5,
        ) + seq![
            retained(
                disc_topic_of("light"@, info, "ana"@),
                json_object(Self::analog_fields(info, dev)),
            ),
        ]
    }

    /// What the controller answers to a message. System information: its
    /// announcements, with the firmware version just learnt. Its I/O mode: the
    /// mode's name under `dio`. An input word: the level of every input and a
    /// button event for every input that changed. An output word: the level of
    /// every output. The analog output: its value in volts. A negative word
    /// is refused.
    pub open spec fn answer(self, resp: OWView) -> Result<TwoWayView, ErrorView> {
        match resp.msg {
            MsgView::CSI(csi) => Ok(
                TwoWayView::of_mqtt(Self::announcements(self.info, self.dio, csi.fw)),
            ),
            MsgView::DIO(dio) => Ok(
                TwoWayView::of_mqtt(seq![publication(self.info.topic("dio"@), dio.name())]),
            ),
            MsgView::Devstatus(s) => if s.addr == "SYS3"@ {
                Ok(reading(self.info, "out/ana"@, s.val))
            } else if s.val < 0 {
                Err(ErrorView::Value(signed_decimal(s.val as int)))
            } else if s.addr == "SYS1_1"@ {
                Ok(
                    TwoWayView::of_mqtt(
                        digital_msgs(self.info, 4, "in"@, s.val, None) + digital_msgs(
                            self.info,
                            4,
                            "button"@,
                            s.val,
                            Some(self.inputs),
                        ),
                    ),
                )
            } else {
                Ok(TwoWayView::of_mqtt(digital_msgs(self.info, 5, "out"@, s.val, None)))
            },
            _ => Ok(TwoWayView::empty()),
        }
    }

    /// The input word that the controller remembers after a message.
    pub open spec fn next_inputs(self, resp: OWView) -> i32 {
        match resp.msg {
            MsgView::Devstatus(s) => if s.val >= 0 && s.addr == "SYS1_1"@ {
                s.val
            } else {
                self.inputs
            },
            _ => self.inputs,
        }
    }

    /// The I/O mode that the controller remembers after a message.
    pub open spec fn next_dio(self, resp: OWView) -> DIO {
        match resp.msg {
            MsgView::DIO(dio) => dio,
            _ => self.dio,
        }
    }

    /// The firmware version that the controller remembers after a message.
    pub open spec fn next_sw_version(self, resp: OWView) -> Seq<char> {
        match resp.msg {
            MsgView::CSI(csi) => csi.fw,
            _ => self.sw_version,
        }
    }

    /// The command topics of the outputs 1 to `n`, each with the output's
    /// number as its token.
    pub open spec fn output_subscriptions(info: DeviceInfoView, n: nat) -> Seq<(Seq<char>, Token)>
        decreases n,
    {
        if n == 0 {
            Seq::empty()
        } else {
            Self::output_subscriptions(info, (n - 1) as nat).push(
                (info.channel_topic("set"@, n), n as i32),
            )
        }
    }

    /// The command topics of the controller: its five outputs, then the
    /// analog output with token 6.
    pub open spec fn subscriptions(info: DeviceInfoView) -> Seq<(Seq<char>, Token)> {
        Self::output_subscriptions(info, 5).push((info.topic("set/ana"@), 6i32))
    }

    /// What the controller does with a command that arrived with `token`.
    /// Tokens 1 to 5 set an output. Token 6 sets the analog output to a
    /// voltage given as a decimal number: the number is taken where it lies
    /// between 0 and 10, all of its digits counted, and is sent in hundredths
    /// of a volt, cut towards zero. Every other payload is refused, `10.001`
    /// and `-0.001` among them. Other tokens do nothing.
    pub open spec fn command(payload: Seq<char>, token: Token) -> Result<TwoWayView, ErrorView> {
        if 1 <= token <= 5 {
            Ok(
                TwoWayView::of_1wire(
                    "SET,SYS,OUT,"@ + decimal(token as nat) + ","@ + bit_text(means_on(payload)),
                ),
            )
        } else if token == 6 {
            match decimal_of(payload) {
                Some(d) => if d.within(1000) {
                    Ok(TwoWayView::of_1wire("SET,SYS,OUTA,"@ + decimal(d.centi as nat)))
                } else {
                    Err(ErrorView::Value(payload))
                },
                None => Err(ErrorView::Value(payload)),
            }
        } else {
            Ok(TwoWayView::empty())
        }
    }
}

impl Controller2 {
    pub fn new(info: DeviceInfo) -> (r: Self)
        ensures
            r.info == info,
            r@ == Controller2View::fresh(info@),
    {
        Controller2 { info, dio: DIO::IndependentLevel, sw_version: String::new(), inputs: 0 }
    }

    fn announce_dev(&self) -> (dev: AnnounceDevice)
        ensures
            dev@ == Controller2View::device(self.info@, self.sw_version@),
    {
        let mut dev = announce_device(&self.info, "Controller2");
        dev.sw_version = Some(self.sw_version.clone());
        dev.via_device = None;
        dev
    }

    fn analog_entity(&self, dev: &AnnounceDevice) -> (m: MqttMsg)
        ensures
            m@ == retained(
                disc_topic_of("light"@, self.info@, "ana"@),
                json_object(Controller2View::analog_fields(self.info@, dev@)),
            ),
    {
        let info = &self.info;
        let set = info.topic("set/ana");
        let mut doc = new_object();
        put_str(&mut doc, "availability_topic", info.status_topic().as_str());
        put_str(&mut doc, "brightness_command_topic", set.as_str());
        put_str(&mut doc, "brightness_state_topic", info.topic("out/ana").as_str());
        put_json(&mut doc, "brightness_scale", "10.0");
        put_object(&mut doc, "device", dev.to_json());
        put_str(&mut doc, "command_topic", set.as_str());
        put_str(&mut doc, "name", controller_label(info, "analog out").as_str());
        let mut id = info.serno.clone();
        id.append("_ana");
        put_str(&mut doc, "unique_id", id.as_str());
        let topic = disc_topic("light", info, "ana");
        MqttMsg::retain(topic.as_str(), object_text(doc).as_str())
    }

    fn announce_inputs(&self, dev: &AnnounceDevice, r: &mut Vec<MqttMsg>)
        ensures
            final(r).deep_view() == old(r).deep_view() + Controller2View::input_announcements(
                self.info@,
                dev@,
                press_length(self.dio),
                4,
            ),
    {
        let dur = match self.dio {
            DIO::LinkedEdge | DIO::IndependentEdge => "short",
            DIO::LinkedLevel | DIO::IndependentLevel => "long",
        };
        let mut ch: u8 = 1;
        assert(r.deep_view() =~= old(r).deep_view() + Controller2View::input_announcements(
            self.info@,
            dev@,
            dur@,
            0,
        ));
        while ch <= 4
            invariant
                1 <= ch <= 5,
                dur@ == press_length(self.dio),
                r.deep_view() == old(r).deep_view() + Controller2View::input_announcements(
                    self.info@,
                    dev@,
                    dur@,
                    (ch - 1) as nat,
                ),
            decreases 5 - ch,
        {
            let released = announce_trigger(&self.info, dev, ch, dur, "0");
            let pressed = announce_trigger(&self.info, dev, ch, dur, "1");
            let mut what = String::from_str("in ");
            push_decimal(&mut what, ch as u64);
            let input = input_entity(
                &self.info,
                dev,
                label("button_", ch).as_str(),
                controller_label(&self.info, what.as_str()).as_str(),
                ch,
                label("in", ch).as_str(),
                None,
            );
            let ghost before = r.deep_view();
            r.push(released);
            r.push(pressed);
            r.push(input);
            assert(r.deep_view() =~= before.push(released@).push(pressed@).push(input@));
            assert(r.deep_view() =~= old(r).deep_view() + Controller2View::input_announcements(
                self.info@,
                dev@,
                dur@,
                ch as nat,
            ));
            ch += 1;
        }
    }

    fn announce_outputs(&self, dev: &AnnounceDevice, r: &mut Vec<MqttMsg>)
        ensures
            final(r).deep_view() == old(r).deep_view() + Controller2View::output_announcements(
                self.info@,
                dev@,
                5,
            ),
    {
        let mut ch: u8 = 1;
        assert(r.deep_view() =~= old(r).deep_view() + Controller2View::output_announcements(
            self.info@,
            dev@,
            0,
        ));
        while ch <= 5
            invariant
                1 <= ch <= 6,
                r.deep_view() == old(r).deep_view() + Controller2View::output_announcements(
                    self.info@,
                    dev@,
                    (ch - 1) as nat,
                ),
            decreases 6 - ch,
        {
            let mut what = String::from_str("out ");
            push_decimal(&mut what, ch as u64);
            let switch = switch_entity(
                &self.info,
                dev,
                controller_label(&self.info, what.as_str()).as_str(),
                ch,
            );
            let ghost before = r.deep_view();
            r.push(switch);
            assert(r.deep_view() =~= before.push(switch@));
            assert(r.deep_view() =~= old(r).deep_view() + Controller2View::output_announcements(
                self.info@,
                dev@,
                ch as nat,
            ));
            ch += 1;
        }
    }
}

impl Device for Controller2 {
    open spec fn model_view(&self) -> ModelView {
        ModelView::Controller2(self@)
    }

    fn info(&self) -> &DeviceInfo {
        &self.info
    }

    fn model(&self) -> &'static str {
        "Controller2"
    }

    fn name(&self) -> &str {
        self.info.name()
    }

    fn configured(&self) -> bool {
        true
    }

    fn set_status(&mut self, status: Status) -> MqttMsg {
        self.info.status = status;
        MqttMsg::retain(self.info.status_topic().as_str(), status.as_str())
    }

    /// The commands to send right after enumeration: the analog output goes to
    /// 5 V and the I/O mode is asked for.
    fn init(&mut self) -> (r: Vec<String>) {
        let mut r: Vec<String> = Vec::new();
        r.push(String::from_str("SET,SYS,OUTA,500"));
        r.push(String::from_str("GET,SYS,DIO"));
        assert(r.deep_view() =~= seq!["SET,SYS,OUTA,500"@, "GET,SYS,DIO"@]);
        r
    }

    /// Announces the controller's inputs and outputs.
    fn announce(&self) -> (r: Vec<MqttMsg>) {
        let dev = self.announce_dev();
        let mut r: Vec<MqttMsg> = Vec::new();
        self.announce_inputs(&dev, &mut r);
        self.announce_outputs(&dev, &mut r);
        let analog = self.analog_entity(&dev);
        r.push(analog);
        assert(r.deep_view() =~= Controller2View::announcements(self.info@, self.dio, self.sw_version@));
        r
    }

    /// The bus addresses of the controller.
    fn register_1wire(&self) -> (r: Vec<String>) {
        let mut r: Vec<String> = Vec::new();
        r.push(String::from_str("SYS1_1"));
        r.push(String::from_str("SYS2_1"));
        r.push(String::from_str("SYS3"));
        assert(r.deep_view() =~= seq!["SYS1_1"@, "SYS2_1"@, "SYS3"@]);
        r
    }

    /// Takes a message of the controller about itself.
    fn handle_1wire(&mut self, resp: OW, _now: u64) -> (r: Result<TwoWay, Error>) {
        match resp.msg {
            Msg::CSI(csi) => {
                self.sw_version = csi.fw;
                Ok(TwoWay::mqtt(self.announce()))
            },
            Msg::DIO(dio) => {
                self.dio = dio;
                Ok(TwoWay::from_mqtt(self.info.mqtt_msg("dio", dio.as_str())))
            },
            Msg::Devstatus(s) => {
                proof {
                    reveal_strlit("SYS3");
                    reveal_strlit("SYS1_1");
                    assert("SYS3"@.len() != "SYS1_1"@.len());
                }
                if str_eq(s.addr.as_str(), "SYS3") {
                    Ok(sensor_reading(&self.info, "out/ana", s.val))
                } else if s.val < 0 {
                    Err(Error::Value(signed_text(s.val as i64)))
                } else if str_eq(s.addr.as_str(), "SYS1_1") {
                    let mut res = digital_io(&self.info, 4, "in", s.val, None);
                    res.append(digital_io(&self.info, 4, "button", s.val, Some(self.inputs)));
                    self.inputs = s.val;
                    assert(res@.ow =~= Seq::<Seq<char>>::empty());
                    Ok(res)
                } else {
                    Ok(digital_io(&self.info, 5, "out", s.val, None))
                }
            },
            _ => Ok(TwoWay::empty()),
        }
    }

    /// The command topics of the controller.
    fn register_mqtt(&self) -> (r: Vec<(String, Token)>) {
        let mut r: Vec<(String, Token)> = Vec::new();
        let mut ch: u8 = 1;
        assert(r.deep_view() =~= Controller2View::output_subscriptions(self.info@, 0));
        while ch <= 5
            invariant
                1 <= ch <= 6,
                r.deep_view() == Controller2View::output_subscriptions(self.info@, (ch - 1) as nat),
            decreases 6 - ch,
        {
            let t = self.info.channel_topic("set", ch);
            let ghost before = r.deep_view();
            let ghost added = (t@, ch as i32);
            r.push((t, ch as i32));
            assert(r.deep_view() =~= before.push(added));
            ch += 1;
        }
        let t = self.info.topic("set/ana");
        let ghost before = r.deep_view();
        let ghost added = (t@, 6i32);
        r.push((t, 6));
        assert(r.deep_view() =~= before.push(added));
        r
    }

    /// Turns a command into the controller command that carries it out.
    fn handle_mqtt(&self, msg: &MqttMsg, token: Token) -> (r: Result<TwoWay, Error>) {
        let pl = msg.payload();
        if 1 <= token && token <= 5 {
            let mut cmd = String::from_str("SET,SYS,OUT,");
            push_decimal(&mut cmd, token as u64);
            cmd.append(",");
            cmd.append(bool2str(if str2bool(pl) { 1 } else { 0 }));
            Ok(TwoWay::from_1wire(cmd.as_str()))
        } else if token == 6 {
            match parse_decimal(pl) {
                Some(d) => {
                    if d.is_within(1000) {
                        assert(0 <= d.centi <= 1000);
                        let mut cmd = String::from_str("SET,SYS,OUTA,");
                        push_decimal(&mut cmd, d.centi as u64);
                        Ok(TwoWay::from_1wire(cmd.as_str()))
                    } else {
                        Err(Error::Value(String::from_str(pl)))
                    }
                },
                None => Err(Error::Value(String::from_str(pl))),
            }
        } else {
            Ok(TwoWay::empty())
        }
    }
}

} // verus!
