//! A virtual thermostat: it reads a temperature from MQTT and switches a
//! heating, with an auxiliary heating for large gaps.
//!
//! Temperatures count hundredths of a degree.
use crate::device::{bit_text, bool2str, means_on, str2bool, AnnounceDevice, AnnounceDeviceView};
use crate::json::{
    json_list, json_object, json_reading, json_string, new_object, no_fields,
    object_text, put_json, put_list, put_object, put_str, string_texts, Fields,
};
use crate::message::opt_text;
use crate::mqtt::{publication, retained, MqttMsg, MqttMsgView};
use crate::routing::Token;
use crate::text::{centi, centi_of, centi_string, parse_centi, str_eq};
use vstd::prelude::*;
use vstd::string::*;

verus! {

/// Below this topic live all virtual thermostats.
pub const BASE: &'static str = "homeassistant/climate/virt";

/// The name under which the bridge presents itself.
pub const PKG_NAME: &'static str = "esera-mqtt";

/// The version under which the bridge presents itself.
pub const PKG_VERSION: &'static str = "0.4.0";

/// The setpoint and the temperature before any is known: 21 degrees.
pub const INITIAL_TEMP: i64 = 2100;

/// A change up to this is no change: 0.02 degrees.
pub const EPSILON_TEMP: i64 = 2;

/// The auxiliary heating joins in where the temperature is this far below
/// the setpoint: 0.8 degrees.
pub const AUX_HEAT_TRIGGER: i64 = 80;

/// The auxiliary heating goes off where the temperature is no further below
/// the setpoint than this: 0.1 degrees.
pub const AUX_HEAT_RELEASE: i64 = 10;

pub const TOK_HEAT_STATE: Token = 1;

pub const TOK_TEMP: Token = 2;

pub const TOK_MODE_SET: Token = 3;

pub const TOK_TEMP_SET: Token = 4;

pub const TOK_DEW: Token = 5;

pub const TOK_AUX_STATE: Token = 6;

/// Why a message was refused.
#[derive(Debug, Clone, PartialEq)]
pub enum Error {
    /// A payload that is no decimal number.
    FloatFormat(String),
    /// A payload that names no mode.
    Keyword(String),
}

/// The content of an [`Error`].
pub enum ErrorView {
    FloatFormat(Seq<char>),
    Keyword(Seq<char>),
}

impl View for Error {
    type V = ErrorView;

    open spec fn view(&self) -> ErrorView {
        match self {
            Error::FloatFormat(s) => ErrorView::FloatFormat(s@),
            Error::Keyword(s) => ErrorView::Keyword(s@),
        }
    }
}

/// The topics of a thermostat. `offset` is added to every temperature that
/// the sensor reports; it counts hundredths of a degree.
#[derive(Default, Debug, Clone, PartialEq)]
pub struct Conf {
    pub heat_state: String,
    pub heat_cmnd: String,
    pub aux_state: Option<String>,
    pub aux_cmnd: Option<String>,
    pub temp: String,
    pub dew: Option<String>,
    pub offset: i32,
}

/// The content of a [`Conf`].
pub struct ConfView {
    pub heat_state: Seq<char>,
    pub heat_cmnd: Seq<char>,
    pub aux_state: Option<Seq<char>>,
    pub aux_cmnd: Option<Seq<char>>,
    pub temp: Seq<char>,
    pub dew: Option<Seq<char>>,
    pub offset: i32,
}

impl View for Conf {
    type V = ConfView;

    open spec fn view(&self) -> ConfView {
        ConfView {
            heat_state: self.heat_state@,
            heat_cmnd: self.heat_cmnd@,
            aux_state: opt_text(self.aux_state),
            aux_cmnd: opt_text(self.aux_cmnd),
            temp: self.temp@,
            dew: opt_text(self.dew),
            offset: self.offset,
        }
    }
}

/// What the thermostat is asked to do.
#[derive(Debug, Clone, Copy, PartialEq, Eq, Structural)]
pub enum Mode {
    Off,
    Heat,
}

/// What the thermostat is doing.
#[derive(Debug, Clone, Copy, PartialEq, Eq, Structural)]
pub enum Action {
    Off,
    Idle,
    Heating,
}

impl Mode {
    /// The name of the mode.
    pub open spec fn name(self) -> Seq<char> {
        match self {
            Mode::Off => "off"@,
            Mode::Heat => "heat"@,
        }
    }

    /// The name of the mode.
    pub fn as_str(&self) -> (s: &'static str)
        ensures
            s@ == self.name(),
    {
        match self {
            Mode::Off => "off",
            Mode::Heat => "heat",
        }
    }
}

/// The mode that a payload names.
pub open spec fn mode_of(text: Seq<char>) -> Option<Mode> {
    if text == "off"@ {
        Some(Mode::Off)
    } else if text == "heat"@ {
        Some(Mode::Heat)
    } else {
        None
    }
}

impl Action {
    /// The name of the action.
    pub open spec fn name(self) -> Seq<char> {
        match self {
            Action::Off => "off"@,
            Action::Idle => "idle"@,
            Action::Heating => "heating"@,
        }
    }

    /// The name of the action.
    pub fn as_str(&self) -> (s: &'static str)
        ensures
            s@ == self.name(),
    {
        match self {
            Action::Off => "off",
            Action::Idle => "idle",
            Action::Heating => "heating",
        }
    }
}

/// A virtual thermostat.
#[derive(Debug, Clone, PartialEq)]
pub struct Climate {
    pub name: String,
    pub conf: Conf,
    pub mode: Mode,
    pub temp_set: i64,
    pub temp_cur: i64,
    pub heating_on: bool,
    pub aux_on: bool,
}

/// The content of a [`Climate`].
pub struct ClimateView {
    pub name: Seq<char>,
    pub conf: ConfView,
    pub mode: Mode,
    pub temp_set: i64,
    pub temp_cur: i64,
    pub heating_on: bool,
    pub aux_on: bool,
}

impl View for Climate {
    type V = ClimateView;

    open spec fn view(&self) -> ClimateView {
        ClimateView {
            name: self.name@,
            conf: self.conf@,
            mode: self.mode,
            temp_set: self.temp_set,
            temp_cur: self.temp_cur,
            heating_on: self.heating_on,
            aux_on: self.aux_on,
        }
    }
}

/// How the bridge presents itself as the maker of its thermostats.
pub open spec fn hvac_device() -> AnnounceDeviceView {
    AnnounceDeviceView {
        identifiers: seq!["esera-mqtt"@, "esera-mqtt"@ + " "@ + "0.4.0"@],
        manufacturer: "esera-mqtt"@,
        model: "Virtual HVAC"@,
        name: "HVAC Controller"@,
        sw_version: Some("0.4.0"@),
        via_device: None,
    }
}

/// The absolute difference of two temperatures.
pub open spec fn gap(a: i64, b: i64) -> int {
    if a >= b {
        a - b
    } else {
        b - a
    }
}

impl ClimateView {
    /// A thermostat that heats, at 21 degrees and set to 21 degrees, with
    /// both heatings off.
    pub open spec fn fresh(name: Seq<char>, conf: ConfView) -> ClimateView {
        ClimateView {
            name,
            conf,
            mode: Mode::Heat,
            temp_set: INITIAL_TEMP,
            temp_cur: INITIAL_TEMP,
            heating_on: false,
            aux_on: false,
        }
    }

    /// A topic of the thermostat: `homeassistant/climate/virt/<name>/<tail>`.
    pub open spec fn t(self, tail: Seq<char>) -> Seq<char> {
        "homeassistant/climate/virt"@ + "/"@ + self.name + "/"@ + tail
    }

    /// What the thermostat is doing: nothing while it is off or idle,
    /// heating while the heating is on.
    pub open spec fn action(self) -> Action {
        if self.mode == Mode::Off {
            Action::Idle
        } else if self.heating_on {
            Action::Heating
        } else {
            Action::Idle
        }
    }

    /// The command that switches the auxiliary heating, if there is one and
    /// it is not yet as asked.
    pub open spec fn set_aux(self, on: bool) -> Seq<MqttMsgView> {
        match self.conf.aux_cmnd {
            Some(cmnd) => if self.aux_on != on {
                seq![publication(cmnd, bit_text(on))]
            } else {
                Seq::empty()
            },
            None => Seq::empty(),
        }
    }

    /// The state of the thermostat: action, mode, temperature and setpoint.
    pub open spec fn state(self) -> Seq<MqttMsgView> {
        seq![
            publication(self.t("action"@), self.action().name()),
            publication(self.t("mode"@), self.mode.name()),
            publication(self.t("current"@), centi(self.temp_cur as int)),
            publication(self.t("target"@), centi(self.temp_set as int)),
        ]
    }

    /// What the thermostat switches. Off: the heating off if it is on, the
    /// auxiliary heating off. Heating: the auxiliary heating off once the
    /// temperature is within 0.1 degrees of the setpoint; the heating on
    /// where it is off and the temperature is below the setpoint, together
    /// with the auxiliary heating where the gap exceeds 0.8 degrees; the
    /// heating off where it is on and the temperature has reached the
    /// setpoint.
    pub open spec fn switching(self) -> Seq<MqttMsgView> {
        if self.mode == Mode::Off {
            (if self.heating_on {
                seq![publication(self.conf.heat_cmnd, bit_text(false))]
            } else {
                Seq::empty()
            }) + self.set_aux(false)
        } else {
            (if self.temp_cur >= self.temp_set - AUX_HEAT_RELEASE && self.aux_on {
                self.set_aux(false)
            } else {
                Seq::empty()
            }) + (if self.temp_cur < self.temp_set && !self.heating_on {
                seq![publication(self.conf.heat_cmnd, bit_text(true))] + (if self.temp_cur
                    < self.temp_set - AUX_HEAT_TRIGGER {
                    self.set_aux(true)
                } else {
                    Seq::empty()
                })
            } else if self.temp_cur >= self.temp_set && self.heating_on {
                seq![publication(self.conf.heat_cmnd, bit_text(false))]
            } else {
                Seq::empty()
            })
        }
    }

    /// What an evaluation publishes: the state, then what is switched.
    pub open spec fn eval(self) -> Seq<MqttMsgView> {
        self.state() + self.switching()
    }

    /// The topics that the thermostat wants, each with its token.
    pub open spec fn subscriptions(self) -> Seq<(Token, Seq<char>)> {
        seq![
            (TOK_HEAT_STATE, self.conf.heat_state),
            (TOK_TEMP, self.conf.temp),
            (TOK_MODE_SET, self.t("mode/set"@)),
            (TOK_TEMP_SET, self.t("target/set"@)),
        ] + (match self.conf.dew {
            Some(dew) => seq![(TOK_DEW, dew)],
            None => Seq::empty(),
        }) + (match self.conf.aux_state {
            Some(aux) => seq![(TOK_AUX_STATE, aux)],
            None => Seq::empty(),
        })
    }

    /// The thermostat after a message that arrived with `token`. A setpoint
    /// and a temperature are read in hundredths of a degree: what stands
    /// behind the second decimal place is cut off before anything is
    /// compared, so that `21.029` counts as 21.02. The value that was read
    /// counts where it differs by more than 0.02 degrees from the one before;
    /// the sensor's offset is added to a temperature first.
    pub open spec fn after(self, token: Token, payload: Seq<char>) -> ClimateView {
        if token == TOK_TEMP_SET {
            match centi_of(payload) {
                Some(new) => if gap(self.temp_set, new as i64) > EPSILON_TEMP {
                    ClimateView { temp_set: new as i64, ..self }
                } else {
                    self
                },
                None => self,
            }
        } else if token == TOK_TEMP {
            match centi_of(payload) {
                Some(new) => if gap(self.temp_cur, (new + self.conf.offset) as i64)
                    > EPSILON_TEMP {
                    ClimateView { temp_cur: (new + self.conf.offset) as i64, ..self }
                } else {
                    self
                },
                None => self,
            }
        } else if token == TOK_MODE_SET {
            match mode_of(payload) {
                Some(new) => ClimateView { mode: new, ..self },
                None => self,
            }
        } else if token == TOK_HEAT_STATE {
            ClimateView { heating_on: means_on(payload), ..self }
        } else if token == TOK_AUX_STATE {
            ClimateView { aux_on: means_on(payload), ..self }
        } else {
            self
        }
    }

    /// What the thermostat publishes for a message that arrived with
    /// `token`. A setpoint that is no number and a mode that is none are
    /// refused. A change of setpoint, temperature, mode or heating brings an
    /// evaluation; after a change of setpoint or mode the command is
    /// published again, retained. Anything else brings nothing.
    pub open spec fn answer(self, token: Token, payload: Seq<char>) -> Result<
        Seq<MqttMsgView>,
        ErrorView,
    > {
        let next = self.after(token, payload);
        if token == TOK_TEMP_SET {
            match centi_of(payload) {
                Some(_) => if next != self {
                    Ok(next.eval().push(retained(self.t("target/set"@), payload)))
                } else {
                    Ok(Seq::empty())
                },
                None => Err(ErrorView::FloatFormat(payload)),
            }
        } else if token == TOK_TEMP {
            match centi_of(payload) {
                Some(_) => if next != self {
                    Ok(next.eval())
                } else {
                    Ok(Seq::empty())
                },
                None => Err(ErrorView::FloatFormat(payload)),
            }
        } else if token == TOK_MODE_SET {
            match mode_of(payload) {
                Some(_) => if next != self {
                    Ok(next.eval().push(retained(self.t("mode/set"@), payload)))
                } else {
                    Ok(Seq::empty())
                },
                None => Err(ErrorView::Keyword(payload)),
            }
        } else if token == TOK_HEAT_STATE {
            if next != self {
                Ok(next.eval())
            } else {
                Ok(Seq::empty())
            }
        } else {
            Ok(Seq::empty())
        }
    }

    /// The discovery document of the thermostat.
    pub open spec fn discovery(self) -> Fields {
        crate::device::with_optional(
            crate::device::with_optional(
                no_fields().insert("action_topic"@, json_string(self.t("action"@))).insert(
                    "availability_topic"@,
                    json_string("homeassistant/climate/virt"@ + "/status"@),
                ).insert("current_temperature_topic"@, json_string(self.t("current"@))).insert(
                    "device"@,
                    hvac_device().text(),
                ).insert("initial"@, json_reading("21.0"@)).insert(
                    "mode_command_topic"@,
                    json_string(self.t("mode/set"@)),
                ).insert("mode_state_topic"@, json_string(self.t("mode"@))).insert(
                    "modes"@,
                    json_list(string_texts(seq!["off"@, "heat"@])),
                ).insert("name"@, json_string(self.name)).insert(
                    "payload_off"@,
                    json_string("0"@),
                ).insert("payload_on"@, json_string("1"@)).insert(
                    "temperature_command_topic"@,
                    json_string(self.t("target/set"@)),
                ).insert("temperature_state_topic"@, json_string(self.t("target"@))).insert(
                    "temp_step"@,
                    json_reading("0.5"@),
                ).insert(
                    "unique_id"@,
                    json_string("esera-mqtt"@ + "::climate::virtual::"@ + self.name),
                ),
                "aux_command_topic"@,
                self.conf.aux_cmnd,
            ),
            "aux_state_topic"@,
            self.conf.aux_state,
        )
    }
}

/// The content of what `process` returns.
pub open spec fn outcome(r: Result<Vec<MqttMsg>, Error>) -> Result<Seq<MqttMsgView>, ErrorView> {
    match r {
        Ok(msgs) => Ok(msgs.deep_view()),
        Err(e) => Err(e@),
    }
}

/// How the bridge presents itself as the maker of its thermostats.
pub fn device() -> (dev: AnnounceDevice)
    ensures
        dev@ == hvac_device(),
{
    let mut identifiers: Vec<String> = Vec::new();
    identifiers.push(String::from_str(PKG_NAME));
    let mut full = String::from_str(PKG_NAME);
    full.append(" ");
    full.append(PKG_VERSION);
    identifiers.push(full);
    assert(identifiers.deep_view() =~= hvac_device().identifiers);
    AnnounceDevice {
        identifiers,
        manufacturer: String::from_str(PKG_NAME),
        model: String::from_str("Virtual HVAC"),
        name: String::from_str("HVAC Controller"),
        sw_version: Some(String::from_str(PKG_VERSION)),
        via_device: None,
    }
}

impl Climate {
    /// A thermostat that has seen nothing yet.
    pub fn new(name: &str, conf: Conf) -> (r: Self)
        ensures
            r@ == ClimateView::fresh(name@, conf@),
    {
        Climate {
            name: String::from_str(name),
            conf,
            mode: Mode::Heat,
            temp_set: INITIAL_TEMP,
            temp_cur: INITIAL_TEMP,
            heating_on: false,
            aux_on: false,
        }
    }

    /// A topic of the thermostat.
    pub fn t(&self, tail: &str) -> (r: String)
        ensures
            r@ == self@.t(tail@),
    {
        let mut r = String::from_str(BASE);
        r.append("/");
        r.append(self.name.as_str());
        r.append("/");
        r.append(tail);
        r
    }

    /// The retained announcement of the thermostat.
    pub fn announce(&self) -> (m: MqttMsg)
        ensures
            m@ == retained(self@.t("config"@), json_object(self@.discovery())),
    {
        let mut status = String::from_str(BASE);
        status.append("/status");
        let mut unique = String::from_str(PKG_NAME);
        unique.append("::climate::virtual::");
        unique.append(self.name.as_str());
        let mut modes: Vec<String> = Vec::new();
        modes.push(String::from_str("off"));
        modes.push(String::from_str("heat"));
        assert(modes.deep_view() =~= seq!["off"@, "heat"@]);
        let mut doc = new_object();
        put_str(&mut doc, "action_topic", self.t("action").as_str());
        put_str(&mut doc, "availability_topic", status.as_str());
        put_str(&mut doc, "current_temperature_topic", self.t("current").as_str());
        put_object(&mut doc, "device", device().to_json());
        put_json(&mut doc, "initial", "21.0");
        put_str(&mut doc, "mode_command_topic", self.t("mode/set").as_str());
        put_str(&mut doc, "mode_state_topic", self.t("mode").as_str());
        put_list(&mut doc, "modes", &modes);
        put_str(&mut doc, "name", self.name.as_str());
        put_str(&mut doc, "payload_off", "0");
        put_str(&mut doc, "payload_on", "1");
        put_str(&mut doc, "temperature_command_topic", self.t("target/set").as_str());
        put_str(&mut doc, "temperature_state_topic", self.t("target").as_str());
        put_json(&mut doc, "temp_step", "0.5");
        put_str(&mut doc, "unique_id", unique.as_str());
        match &self.conf.aux_cmnd {
            Some(t) => put_str(&mut doc, "aux_command_topic", t.as_str()),
            None => {},
        }
        match &self.conf.aux_state {
            Some(t) => put_str(&mut doc, "aux_state_topic", t.as_str()),
            None => {},
        }
        MqttMsg::retain(self.t("config").as_str(), object_text(doc).as_str())
    }

    /// The topics that the thermostat wants, each with its token.
    pub fn subscribe(&self) -> (r: Vec<(Token, String)>)
        ensures
            r.deep_view() == self@.subscriptions(),
    {
        let mut r: Vec<(Token, String)> = Vec::new();
        r.push((TOK_HEAT_STATE, self.conf.heat_state.clone()));
        r.push((TOK_TEMP, self.conf.temp.clone()));
        r.push((TOK_MODE_SET, self.t("mode/set")));
        r.push((TOK_TEMP_SET, self.t("target/set")));
        let ghost base = r.deep_view();
        assert(base =~= seq![
            (TOK_HEAT_STATE, self@.conf.heat_state),
            (TOK_TEMP, self@.conf.temp),
            (TOK_MODE_SET, self@.t("mode/set"@)),
            (TOK_TEMP_SET, self@.t("target/set"@)),
        ]);
        match &self.conf.dew {
            Some(dew) => {
                r.push((TOK_DEW, dew.clone()));
            },
            None => {},
        }
        let ghost mid = r.deep_view();
        assert(mid =~= base + (match self@.conf.dew {
            Some(dew) => seq![(TOK_DEW, dew)],
            None => Seq::empty(),
        }));
        match &self.conf.aux_state {
            Some(aux) => {
                r.push((TOK_AUX_STATE, aux.clone()));
            },
            None => {},
        }
        assert(r.deep_view() =~= mid + (match self@.conf.aux_state {
            Some(aux) => seq![(TOK_AUX_STATE, aux)],
            None => Seq::empty(),
        }));
        r
    }

    /// What the thermostat is doing.
    pub fn action(&self) -> (a: Action)
        ensures
            a == self@.action(),
    {
        match self.mode {
            Mode::Off => Action::Idle,
            Mode::Heat => if self.heating_on {
                Action::Heating
            } else {
                Action::Idle
            },
        }
    }

    /// The command that switches the auxiliary heating, if one is due.
    fn set_aux(&self, on: bool, res: &mut Vec<MqttMsg>)
        ensures
            final(res).deep_view() == old(res).deep_view() + self@.set_aux(on),
    {
        match &self.conf.aux_cmnd {
            Some(cmnd) => {
                if self.aux_on != on {
                    let m = MqttMsg::new(cmnd.as_str(), bool2str(if on { 1 } else { 0 }));
                    res.push(m);
                    assert(res.deep_view() =~= old(res).deep_view() + seq![m@]);
                    return ;
                }
            },
            None => {},
        }
        assert(res.deep_view() =~= old(res).deep_view() + Seq::<MqttMsgView>::empty());
    }

    /// Publishes the state and switches what is to be switched.
    pub fn eval(&self) -> (r: Vec<MqttMsg>)
        ensures
            r.deep_view() == self@.eval(),
    {
        let mut res: Vec<MqttMsg> = Vec::new();
        res.push(MqttMsg::new(self.t("action").as_str(), self.action().as_str()));
        res.push(MqttMsg::new(self.t("mode").as_str(), self.mode.as_str()));
        res.push(MqttMsg::new(self.t("current").as_str(), centi_string(self.temp_cur).as_str()));
        res.push(MqttMsg::new(self.t("target").as_str(), centi_string(self.temp_set).as_str()));
        assert(res.deep_view() =~= self@.state());
        let ghost state = res.deep_view();
        match self.mode {
            Mode::Off => {
                let ghost first: Seq<MqttMsgView> = if self.heating_on {
                    seq![publication(self@.conf.heat_cmnd, bit_text(false))]
                } else {
                    Seq::empty()
                };
                if self.heating_on {
                    res.push(MqttMsg::new(self.conf.heat_cmnd.as_str(), bool2str(0)));
                }
                assert(res.deep_view() =~= state + first);
                self.set_aux(false, &mut res);
                assert(res.deep_view() =~= state + (first + self@.set_aux(false)));
            },
            Mode::Heat => {
                if self.temp_cur as i128 >= self.temp_set as i128 - AUX_HEAT_RELEASE as i128
                    && self.aux_on {
                    self.set_aux(false, &mut res);
                }
                let ghost first: Seq<MqttMsgView> = if self.temp_cur >= self.temp_set
                    - AUX_HEAT_RELEASE && self.aux_on {
                    self@.set_aux(false)
                } else {
                    Seq::empty()
                };
                assert(res.deep_view() =~= state + first);
                if self.temp_cur < self.temp_set && !self.heating_on {
                    let m = MqttMsg::new(self.conf.heat_cmnd.as_str(), bool2str(1));
                    res.push(m);
                    assert(res.deep_view() =~= (state + first).push(m@));
                    assert(res.deep_view() =~= state + first + seq![m@]);
                    if (self.temp_cur as i128) < self.temp_set as i128 - AUX_HEAT_TRIGGER as i128 {
                        self.set_aux(true, &mut res);
                        assert(res.deep_view() =~= state + (first + (seq![m@] + self@.set_aux(
                            true,
                        ))));
                    } else {
                        assert(res.deep_view() =~= state + (first + (seq![m@] + Seq::<
                            MqttMsgView,
                        >::empty())));
                    }
                } else if self.temp_cur >= self.temp_set && self.heating_on {
                    let m = MqttMsg::new(self.conf.heat_cmnd.as_str(), bool2str(0));
                    res.push(m);
                    assert(res.deep_view() =~= (state + first).push(m@));
                    assert(res.deep_view() =~= state + (first + seq![m@]));
                } else {
                    assert(res.deep_view() =~= state + (first + Seq::<MqttMsgView>::empty()));
                }
            },
        }
        res
    }

    /// Takes a message that arrived with `token`. Numbers are read in
    /// hundredths of a degree, and compared as they were read.
    pub fn process(&mut self, token: Token, _topic: &str, payload: &str) -> (r: Result<
        Vec<MqttMsg>,
        Error,
    >)
        ensures
            final(self)@ == old(self)@.after(token, payload@),
            outcome(r) == old(self)@.answer(token, payload@),
    {
        let none: Vec<MqttMsg> = Vec::new();
        assert(none.deep_view() =~= Seq::<MqttMsgView>::empty());
        if token == TOK_TEMP_SET {
            match parse_centi(payload) {
                Some(new) => {
                    let new = new as i64;
                    let diff: i128 = if self.temp_set >= new {
                        self.temp_set as i128 - new as i128
                    } else {
                        new as i128 - self.temp_set as i128
                    };
                    if diff > EPSILON_TEMP as i128 {
                        self.temp_set = new;
                        let mut res = self.eval();
                        let m = MqttMsg::retain(self.t("target/set").as_str(), payload);
                        let ghost before = res.deep_view();
                        res.push(m);
                        assert(res.deep_view() =~= before.push(m@));
                        return Ok(res);
                    }
                    Ok(none)
                },
                None => Err(Error::FloatFormat(String::from_str(payload))),
            }
        } else if token == TOK_TEMP {
            match parse_centi(payload) {
                Some(new) => {
                    let new = new as i64 + self.conf.offset as i64;
                    let diff: i128 = if self.temp_cur >= new {
                        self.temp_cur as i128 - new as i128
                    } else {
                        new as i128 - self.temp_cur as i128
                    };
                    if diff > EPSILON_TEMP as i128 {
                        self.temp_cur = new;
                        return Ok(self.eval());
                    }
                    Ok(none)
                },
                None => Err(Error::FloatFormat(String::from_str(payload))),
            }
        } else if token == TOK_MODE_SET {
            let new = if str_eq(payload, "off") {
                Mode::Off
            } else if str_eq(payload, "heat") {
                Mode::Heat
            } else {
                return Err(Error::Keyword(String::from_str(payload)));
            };
            if self.mode != new {
                self.mode = new;
                let mut res = self.eval();
                let m = MqttMsg::retain(self.t("mode/set").as_str(), payload);
                let ghost before = res.deep_view();
                res.push(m);
                assert(res.deep_view() =~= before.push(m@));
                return Ok(res);
            }
            Ok(none)
        } else if token == TOK_HEAT_STATE {
            let new = str2bool(payload);
            if self.heating_on != new {
                self.heating_on = new;
                return Ok(self.eval());
            }
            Ok(none)
        } else if token == TOK_AUX_STATE {
            self.aux_on = str2bool(payload);
            Ok(none)
        } else {
            Ok(none)
        }
    }
}

} // verus!
