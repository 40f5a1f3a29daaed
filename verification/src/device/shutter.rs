//! A shutter drive with two buttons and a position that is reckoned from time.
use super::discovery::{announce_trigger, trigger_announcement};
use super::{
    announce_device, digital_io, digital_msgs, push_sanitised, sanitised, AnnounceDevice,
    AnnounceDeviceView, Device, Error, ErrorView, ModelView,
};
use crate::info::{DeviceInfo, DeviceInfoView};
use crate::json::{
    json_bool, json_object, json_string, new_object, no_fields, object_text, put_bool, put_object,
    put_str, Fields,
};
use crate::message::{subaddr_of, Msg, MsgView, OWView, Status, OW};
use crate::mqtt::{publication, retained, MqttMsg, MqttMsgView};
use crate::routing::Token;
use crate::text::{
    decimal, decimal_of, decimal_text, parse_decimal, push_decimal, signed_decimal, signed_text,
    str_eq, trim, trimmed,
};
use crate::twoway::{TwoWay, TwoWayView};
use vstd::prelude::*;
use vstd::string::*;

verus! {

/// The travel time of a shutter for which none is configured: 60 s.
pub const DEF_TIME: u64 = 60_000;

/// A fully open shutter, in thousandths of a percent.
pub const FULL: u32 = 100_000;

/// The travel times that the host has set, as it found them: keys of the form
/// `SHUTTER_<contno>_<name>_<CLOSE|OPEN>_TIME`, each with a number of seconds.
#[derive(Debug, Clone, PartialEq, Default)]
pub struct TravelTimes {
    pub settings: Vec<(String, String)>,
}

/// The key under which a travel time is set: `<contno>` is the controller's
/// number, `<name>` the name of the shutter, or its bus id where it has none.
pub open spec fn time_key(contno: u8, name: Seq<char>, closing: bool) -> Seq<char> {
    "SHUTTER_"@ + decimal(contno as nat) + "_"@ + name + "_"@ + (if closing {
        "CLOSE"@
    } else {
        "OPEN"@
    }) + "_TIME"@
}

/// The value of the first among the first `n` settings that has the key.
pub open spec fn setting(settings: Seq<(Seq<char>, Seq<char>)>, key: Seq<char>, n: nat) -> Option<
    Seq<char>,
>
    decreases n,
{
    if n == 0 || n > settings.len() {
        None
    } else {
        match setting(settings, key, (n - 1) as nat) {
            Some(v) => Some(v),
            None => if settings[n - 1].0 == key {
                Some(settings[n - 1].1)
            } else {
                None
            },
        }
    }
}

/// The milliseconds that a setting stands for. The text is a decimal number
/// of seconds, with or without white space around it, read in hundredths of
/// a second. A text that is no such number, or stands for less than nothing,
/// leaves the default.
pub open spec fn millis_of(text: Seq<char>) -> u64 {
    match decimal_of(trimmed(text)) {
        Some(d) => if d.centi >= 0 {
            (d.centi * 10) as u64
        } else {
            DEF_TIME
        },
        None => DEF_TIME,
    }
}

/// The travel time of a shutter in one direction: what is set for it, else
/// the default of 60 s.
pub open spec fn travel_time(
    settings: Seq<(Seq<char>, Seq<char>)>,
    info: DeviceInfoView,
    closing: bool,
) -> u64 {
    match setting(settings, time_key(info.contno, info.name(), closing), settings.len()) {
        Some(text) => millis_of(text),
        None => DEF_TIME,
    }
}

proof fn lemma_setting_found(
    settings: Seq<(Seq<char>, Seq<char>)>,
    key: Seq<char>,
    n: nat,
    m: nat,
)
    requires
        n <= m <= settings.len(),
        setting(settings, key, n) is Some,
    ensures
        setting(settings, key, m) == setting(settings, key, n),
    decreases m - n,
{
    if n < m {
        lemma_setting_found(settings, key, n, (m - 1) as nat);
    }
}

impl TravelTimes {
    /// The travel time, in milliseconds, of the shutter with the given info
    /// in one direction.
    pub fn time_to(&self, info: &DeviceInfo, closing: bool) -> (r: u64)
        ensures
            r == travel_time(self.settings.deep_view(), info@, closing),
    {
        let mut key = String::from_str("SHUTTER_");
        push_decimal(&mut key, info.contno as u64);
        key.append("_");
        key.append(info.name());
        key.append("_");
        if closing {
            key.append("CLOSE");
        } else {
            key.append("OPEN");
        }
        key.append("_TIME");
        let ghost settings = self.settings.deep_view();
        let mut k: usize = 0;
        while k < self.settings.len()
            invariant
                k <= self.settings@.len(),
                settings == self.settings.deep_view(),
                key@ == time_key(info@.contno, info@.name(), closing),
                setting(settings, key@, k as nat) is None,
            decreases self.settings@.len() - k,
        {
            assert(settings[k as int] == (self.settings@[k as int].0@, self.settings@[k as int].1@));
            if str_eq(self.settings[k].0.as_str(), key.as_str()) {
                proof {
                    assert(setting(settings, key@, (k + 1) as nat) == Some(settings[k as int].1));
                    lemma_setting_found(settings, key@, (k + 1) as nat, settings.len());
                }
                let text = trim(self.settings[k].1.as_str());
                return match parse_decimal(text.as_str()) {
                    Some(d) => if d.centi >= 0 {
                        d.centi as u64 * 10
                    } else {
                        DEF_TIME
                    },
                    None => DEF_TIME,
                };
            }
            k += 1;
        }
        DEF_TIME
    }
}

/// What a shutter is doing: nothing, or closing or opening since a time given
/// in milliseconds.
#[derive(Debug, Clone, Copy, PartialEq, Eq, Structural)]
pub enum Motion {
    Stop,
    Close(u64),
    Open(u64),
}

/// A shutter. Positions count thousandths of a percent, from 0 (closed) to
/// `FULL` (open); times count milliseconds. While the shutter moves,
/// `initial_pos` is where it started and `position` is where it was when last
/// reckoned.
#[derive(Debug, Clone, PartialEq)]
pub struct Shutter {
    pub info: DeviceInfo,
    pub buttons: i32,
    pub motion: Motion,
    pub initial_pos: u32,
    pub position: u32,
    pub close_ms: u64,
    pub open_ms: u64,
}

/// The time that has passed since `since`: none where the clock went back.
pub open spec fn elapsed(now: u64, since: u64) -> nat {
    if now >= since {
        (now - since) as nat
    } else {
        0
    }
}

/// How far a shutter has travelled after `passed` milliseconds, where the
/// whole way takes `travel`: nothing in the first second, then evenly up to
/// the whole way. In thousandths of a percent, rounded down.
pub open spec fn moved(passed: nat, travel: nat) -> nat {
    if travel == 0 {
        FULL as nat
    } else if passed <= 1000 {
        0
    } else if passed - 1000 >= travel {
        FULL as nat
    } else {
        ((passed - 1000) * FULL) as nat / travel
    }
}

/// A position in whole percent, rounded to the nearest.
pub open spec fn percent(position: u32) -> nat {
    ((position + 500) / 1000) as nat
}

/// The command that drives the shutter of device `devno`: 1 closes, 2 opens,
/// 3 stops.
pub open spec fn drive_command(devno: Seq<char>, code: nat) -> Seq<char> {
    "SET,OWD,SHT,"@ + devno + ","@ + decimal(code)
}

proof fn lemma_moved_bound(passed: nat, travel: nat)
    ensures
        moved(passed, travel) <= FULL,
{
    if travel != 0 && passed > 1000 && passed - 1000 < travel {
        let c = (passed - 1000) as nat;
        assert(c * FULL <= travel * FULL) by (nonlinear_arith)
            requires
                c <= travel,
        ;
        assert((c * FULL) as nat / travel <= FULL) by (nonlinear_arith)
            requires
                c * FULL <= travel * FULL,
                travel > 0,
        ;
    }
}

/// How far a shutter has travelled.
pub fn travelled(passed: u64, travel: u64) -> (r: u32)
    ensures
        r == moved(passed as nat, travel as nat),
        r <= FULL,
{
    proof {
        lemma_moved_bound(passed as nat, travel as nat);
    }
    if travel == 0 {
        FULL
    } else if passed <= 1000 {
        0
    } else if passed - 1000 >= travel {
        FULL
    } else {
        let c: u128 = (passed - 1000) as u128;
        (c * 100_000 / (travel as u128)) as u32
    }
}

/// The content of a [`Shutter`].
pub struct ShutterView {
    pub info: DeviceInfoView,
    pub buttons: i32,
    pub motion: Motion,
    pub initial_pos: u32,
    pub position: u32,
    pub close_ms: u64,
    pub open_ms: u64,
}

impl View for Shutter {
    type V = ShutterView;

    open spec fn view(&self) -> ShutterView {
        ShutterView {
            info: self.info@,
            buttons: self.buttons,
            motion: self.motion,
            initial_pos: self.initial_pos,
            position: self.position,
            close_ms: self.close_ms,
            open_ms: self.open_ms,
        }
    }
}

impl ShutterView {
    /// A shutter that is fully open and at rest.
    pub open spec fn fresh(info: DeviceInfoView, close_ms: u64, open_ms: u64) -> ShutterView {
        ShutterView {
            info,
            buttons: 0,
            motion: Motion::Stop,
            initial_pos: FULL,
            position: FULL,
            close_ms,
            open_ms,
        }
    }

    /// The bus addresses whose words the shutter can take: sub-address 1, the
    /// buttons, and 3, the drive.
    pub open spec fn accepts(addr: Seq<char>) -> bool {
        subaddr_of(addr) == Some(1u8) || subaddr_of(addr) == Some(3u8)
    }

    /// Where the shutter is at `now`, reckoned from where it started and how
    /// long it has moved.
    pub open spec fn position_at(self, now: u64) -> u32 {
        match self.motion {
            Motion::Close(since) => {
                let m = moved(elapsed(now, since), self.close_ms as nat);
                if m >= self.initial_pos {
                    0
                } else if self.initial_pos - m >= FULL {
                    FULL
                } else {
                    (self.initial_pos - m) as u32
                }
            },
            Motion::Open(since) => {
                let p = self.initial_pos + moved(elapsed(now, since), self.open_ms as nat);
                if p >= FULL {
                    FULL
                } else {
                    p as u32
                }
            },
            Motion::Stop => if self.position >= FULL {
                FULL
            } else {
                self.position
            },
        }
    }

    /// Whether the shutter has moved for longer than its travel time.
    pub open spec fn overdue(self, now: u64) -> bool {
        match self.motion {
            Motion::Close(since) => elapsed(now, since) > self.close_ms,
            Motion::Open(since) => elapsed(now, since) > self.open_ms,
            Motion::Stop => false,
        }
    }

    /// The two low bits of a drive word: 1 closing, 2 opening, 3 stop, 0 idle.
    pub open spec fn drive_bits(val: i32) -> u32 {
        (#[verifier::truncate] (val as u32)) & 3u32
    }

    /// Whether a drive word starts a motion: it reports closing or opening
    /// and the shutter is not yet doing that.
    pub open spec fn starts(self, val: i32) -> bool {
        (Self::drive_bits(val) == 1 && !(self.motion is Close)) || (Self::drive_bits(val) == 2 && !(
        self.motion is Open))
    }

    /// What the shutter does after a drive word at `now`.
    pub open spec fn next_motion(self, val: i32, now: u64) -> Motion {
        if Self::drive_bits(val) == 1 && !(self.motion is Close) {
            Motion::Close(now)
        } else if Self::drive_bits(val) == 2 && !(self.motion is Open) {
            Motion::Open(now)
        } else if Self::drive_bits(val) == 3 {
            Motion::Stop
        } else {
            self.motion
        }
    }

    /// The position after a drive word at `now`: as it was where the word
    /// starts a motion, else reckoned anew.
    pub open spec fn next_position(self, val: i32, now: u64) -> u32 {
        if self.starts(val) {
            self.position
        } else {
            self.position_at(now)
        }
    }

    /// The state that is published for a motion and a position.
    pub open spec fn state_name(motion: Motion, position: u32) -> Seq<char> {
        match motion {
            Motion::Stop => if percent(position) == 100 {
                "open"@
            } else if percent(position) == 0 {
                "closed"@
            } else {
                "stopped"@
            },
            Motion::Close(_) => "closing"@,
            Motion::Open(_) => "opening"@,
        }
    }

    /// What the shutter answers to a drive word at `now`: a stop command
    /// where the word starts and stops nothing and the shutter is overdue,
    /// then its position in percent and its state.
    pub open spec fn drive_answer(self, val: i32, now: u64) -> TwoWayView {
        TwoWayView {
            mqtt: seq![
                publication(
                    self.info.topic("position"@),
                    decimal(percent(self.next_position(val, now))),
                ),
                publication(
                    self.info.topic("state"@),
                    Self::state_name(self.next_motion(val, now), self.next_position(val, now)),
                ),
            ],
            ow: if !self.starts(val) && Self::drive_bits(val) != 3 && self.overdue(now) {
                seq![drive_command(self.info.devno(), 3)]
            } else {
                Seq::empty()
            },
        }
    }

    /// What the shutter answers to a controller message at `now`. For a
    /// button word: the level of both buttons and an event for each that
    /// changed; a negative word is refused. For a drive word: see
    /// `drive_answer`.
    pub open spec fn answer(self, resp: OWView, now: u64) -> Result<TwoWayView, ErrorView> {
        match resp.msg {
            MsgView::Devstatus(s) => if subaddr_of(s.addr) == Some(1u8) {
                if s.val < 0 {
                    Err(ErrorView::Value(signed_decimal(s.val as int)))
                } else {
                    Ok(
                        TwoWayView::of_mqtt(
                            digital_msgs(self.info, 2, "in"@, s.val, None) + digital_msgs(
                                self.info,
                                2,
                                "button"@,
                                s.val,
                                Some(self.buttons),
                            ),
                        ),
                    )
                }
            } else {
                Ok(self.drive_answer(s.val, now))
            },
            _ => Ok(TwoWayView::empty()),
        }
    }

    /// The shutter after a controller message at `now`.
    pub open spec fn after(self, resp: OWView, now: u64) -> ShutterView {
        match resp.msg {
            MsgView::Devstatus(s) => if subaddr_of(s.addr) == Some(1u8) {
                if s.val < 0 {
                    self
                } else {
                    ShutterView { buttons: s.val, ..self }
                }
            } else {
                self.after_drive(s.val, now)
            },
            _ => self,
        }
    }

    /// The shutter after a drive word at `now`. A stop also makes the
    /// position of that moment the start of the next motion.
    pub open spec fn after_drive(self, val: i32, now: u64) -> ShutterView {
        ShutterView {
            motion: self.next_motion(val, now),
            position: self.next_position(val, now),
            initial_pos: if Self::drive_bits(val) == 3 && !self.starts(val) {
                self.position_at(now)
            } else {
                self.initial_pos
            },
            ..self
        }
    }

    /// The discovery document of the cover.
    pub open spec fn cover_fields(info: DeviceInfoView, dev: AnnounceDeviceView) -> Fields {
        no_fields().insert("availability_topic"@, json_string(info.status_topic())).insert(
            "command_topic"@,
            json_string(info.topic("set"@)),
        ).insert("device"@, dev.text()).insert(
            "name"@,
            json_string("Shutter "@ + decimal(info.contno as nat) + "/"@ + info.name()),
        ).insert("state_topic"@, json_string(info.topic("state"@))).insert(
            "unique_id"@,
            json_string(info.serno),
        ).insert("optimistic"@, json_bool(false)).insert(
            "position_topic"@,
            json_string(info.topic("position"@)),
        ).insert("state_opening"@, json_string("opening"@)).insert(
            "state_open"@,
            json_string("open"@),
        ).insert("state_closing"@, json_string("closing"@)).insert(
            "state_closed"@,
            json_string("closed"@),
        ).insert("state_stopped"@, json_string("stopped"@))
    }

    /// The discovery topic of the cover.
    pub open spec fn cover_topic(info: DeviceInfoView) -> Seq<char> {
        "homeassistant/cover/"@ + decimal(info.contno as nat) + "/"@ + sanitised(info.serno)
            + "/config"@
    }

    /// The announcements of the shutter: the triggers of its two buttons,
    /// then its cover.
    pub open spec fn announcements(info: DeviceInfoView) -> Seq<MqttMsgView> {
        let dev = AnnounceDeviceView::of(info, "Shutter"@);
        seq![
            trigger_announcement(info, dev, 1, "short"@, "0"@),
            trigger_announcement(info, dev, 1, "short"@, "1"@),
            trigger_announcement(info, dev, 2, "short"@, "0"@),
            trigger_announcement(info, dev, 2, "short"@, "1"@),
            retained(Self::cover_topic(info), json_object(Self::cover_fields(info, dev))),
        ]
    }

    /// What the shutter sends for a command: `CLOSE`, `OPEN` and `STOP` drive
    /// it, anything else is dropped.
    pub open spec fn command(info: DeviceInfoView, payload: Seq<char>) -> TwoWayView {
        if payload == "CLOSE"@ {
            TwoWayView::of_1wire(drive_command(info.devno(), 1))
        } else if payload == "OPEN"@ {
            TwoWayView::of_1wire(drive_command(info.devno(), 2))
        } else if payload == "STOP"@ {
            TwoWayView::of_1wire(drive_command(info.devno(), 3))
        } else {
            TwoWayView::empty()
        }
    }

}

/// A shutter that has moved for its travel time and one second more has
/// arrived: a drive word that neither stops it nor turns it round finds it
/// fully open, or fully closed, and brings the command that stops the drive.
pub proof fn law_auto_stop(shutter: ShutterView, val: i32, now: u64)
    requires
        shutter.initial_pos <= FULL,
        ShutterView::drive_bits(val) != 3,
        !shutter.starts(val),
        match shutter.motion {
            Motion::Open(since) => elapsed(now, since) >= shutter.open_ms + 1000,
            Motion::Close(since) => elapsed(now, since) >= shutter.close_ms + 1000,
            Motion::Stop => false,
        },
    ensures
        shutter.drive_answer(val, now).ow == seq![drive_command(shutter.info.devno(), 3)],
        shutter.motion is Open ==> shutter.after_drive(val, now).position == FULL,
        shutter.motion is Close ==> shutter.after_drive(val, now).position == 0,
        shutter.after_drive(val, now).motion == shutter.motion,
{
}

impl Shutter {
    /// A shutter that is fully open and at rest, with the default travel
    /// times.
    pub fn new(info: DeviceInfo) -> (r: Self)
        ensures
            r.info == info,
            r@ == ShutterView::fresh(info@, DEF_TIME, DEF_TIME),
    {
        Shutter {
            info,
            buttons: 0,
            motion: Motion::Stop,
            initial_pos: FULL,
            position: FULL,
            close_ms: DEF_TIME,
            open_ms: DEF_TIME,
        }
    }

    /// A shutter that is fully open and at rest, with the travel times that
    /// the host has set for it.
    pub fn from_settings(info: DeviceInfo, times: &TravelTimes) -> (r: Self)
        ensures
            r.info == info,
            r@ == ShutterView::fresh(
                info@,
                travel_time(times.settings.deep_view(), info@, true),
                travel_time(times.settings.deep_view(), info@, false),
            ),
    {
        let close_ms = times.time_to(&info, true);
        let open_ms = times.time_to(&info, false);
        Shutter::with_times(info, close_ms, open_ms)
    }

    /// A shutter that is fully open and at rest, with the given travel times
    /// in milliseconds.
    pub fn with_times(info: DeviceInfo, close_ms: u64, open_ms: u64) -> (r: Self)
        ensures
            r.info == info,
            r@ == ShutterView::fresh(info@, close_ms, open_ms),
    {
        Shutter {
            info,
            buttons: 0,
            motion: Motion::Stop,
            initial_pos: FULL,
            position: FULL,
            close_ms,
            open_ms,
        }
    }

    /// Reckons the position at `now`.
    fn calc(&mut self, now: u64)
        ensures
            final(self).info == old(self).info,
            final(self)@ == (ShutterView { position: old(self)@.position_at(now), ..old(self)@ }),
            final(self).position <= FULL,
    {
        match self.motion {
            Motion::Close(since) => {
                let passed = if now >= since {
                    now - since
                } else {
                    0
                };
                let m = travelled(passed, self.close_ms);
                self.position = if m >= self.initial_pos {
                    0
                } else if self.initial_pos - m >= FULL {
                    FULL
                } else {
                    self.initial_pos - m
                };
            },
            Motion::Open(since) => {
                let passed = if now >= since {
                    now - since
                } else {
                    0
                };
                let m = travelled(passed, self.open_ms);
                self.position = if m >= FULL || self.initial_pos >= FULL - m {
                    FULL
                } else {
                    self.initial_pos + m
                };
            },
            Motion::Stop => {
                if self.position >= FULL {
                    self.position = FULL;
                }
            },
        }
    }

    fn is_overdue(&self, now: u64) -> (r: bool)
        ensures
            r == self@.overdue(now),
    {
        match self.motion {
            Motion::Close(since) => now >= since && now - since > self.close_ms,
            Motion::Open(since) => now >= since && now - since > self.open_ms,
            Motion::Stop => false,
        }
    }

    /// The state that is published.
    pub fn state(&self) -> (s: &'static str)
        ensures
            s@ == ShutterView::state_name(self.motion, self.position),
    {
        let rounded: u64 = (self.position as u64 + 500) / 1000;
        match self.motion {
            Motion::Stop => if rounded == 100 {
                "open"
            } else if rounded == 0 {
                "closed"
            } else {
                "stopped"
            },
            Motion::Close(_) => "closing",
            Motion::Open(_) => "opening",
        }
    }

    fn drive_code(&self, code: u8) -> (cmd: String)
        ensures
            cmd@ == drive_command(self.info@.devno(), code as nat),
    {
        let mut cmd = String::from_str("SET,OWD,SHT,");
        cmd.append(self.info.devno());
        cmd.append(",");
        push_decimal(&mut cmd, code as u64);
        cmd
    }

    /// Takes a drive word at `now`.
    fn drive(&mut self, val: i32, now: u64) -> (r: TwoWay)
        ensures
            final(self).info == old(self).info,
            final(self)@ == old(self)@.after_drive(val, now),
            r@ == old(self)@.drive_answer(val, now),
    {
        let bits: u32 = (#[verifier::truncate] (val as u32)) & 3u32;
        let mut res = TwoWay::empty();
        let closing = match self.motion {
            Motion::Close(_) => true,
            _ => false,
        };
        let opening = match self.motion {
            Motion::Open(_) => true,
            _ => false,
        };
        if bits == 1 && !closing {
            self.motion = Motion::Close(now);
        } else if bits == 2 && !opening {
            self.motion = Motion::Open(now);
        } else if bits == 3 {
            self.calc(now);
            self.motion = Motion::Stop;
            self.initial_pos = self.position;
        } else {
            let overdue = self.is_overdue(now);
            self.calc(now);
            if overdue {
                res.ow.push(self.drive_code(3));
            }
        }
        let ghost ow = res.ow.deep_view();
        assert(ow =~= old(self)@.drive_answer(val, now).ow);
        let shown = decimal_text((self.position as u64 + 500) / 1000);
        res.push_mqtt(self.info.mqtt_msg("position", shown.as_str()));
        res.push_mqtt(self.info.mqtt_msg("state", self.state()));
        assert(res@.mqtt =~= old(self)@.drive_answer(val, now).mqtt);
        res
    }

    fn cover_entity(&self, dev: &AnnounceDevice) -> (m: MqttMsg)
        ensures
            m@ == retained(
                ShutterView::cover_topic(self.info@),
                json_object(ShutterView::cover_fields(self.info@, dev@)),
            ),
    {
        let i = &self.info;
        let mut name = String::from_str("Shutter ");
        push_decimal(&mut name, i.contno as u64);
        name.append("/");
        name.append(i.name());
        let mut doc = new_object();
        put_str(&mut doc, "availability_topic", i.status_topic().as_str());
        put_str(&mut doc, "command_topic", i.topic("set").as_str());
        put_object(&mut doc, "device", dev.to_json());
        put_str(&mut doc, "name", name.as_str());
        put_str(&mut doc, "state_topic", i.topic("state").as_str());
        put_str(&mut doc, "unique_id", i.serno.as_str());
        put_bool(&mut doc, "optimistic", false);
        put_str(&mut doc, "position_topic", i.topic("position").as_str());
        put_str(&mut doc, "state_opening", "opening");
        put_str(&mut doc, "state_open", "open");
        put_str(&mut doc, "state_closing", "closing");
        put_str(&mut doc, "state_closed", "closed");
        put_str(&mut doc, "state_stopped", "stopped");
        let mut topic = String::from_str("homeassistant/cover/");
        push_decimal(&mut topic, i.contno as u64);
        topic.append("/");
        push_sanitised(&mut topic, i.serno.as_str());
        topic.append("/config");
        MqttMsg::retain(topic.as_str(), object_text(doc).as_str())
    }
}

impl Device for Shutter {
    open spec fn model_view(&self) -> ModelView {
        ModelView::Shutter(self@)
    }

    fn info(&self) -> &DeviceInfo {
        &self.info
    }

    fn model(&self) -> &'static str {
        "Shutter"
    }

    fn name(&self) -> &str {
        self.info.name()
    }

    fn configured(&self) -> bool {
        true
    }

    fn set_status(&mut self, status: Status) -> MqttMsg {
        self.info.status = status;
        MqttMsg::retain(self.info.status_topic().as_str(), status.as_str())
    }

    fn init(&mut self) -> Vec<String> {
        let r: Vec<String> = Vec::new();
        assert(r.deep_view() =~= Seq::<Seq<char>>::empty());
        r
    }

    /// Announces the buttons and the cover.
    fn announce(&self) -> (r: Vec<MqttMsg>) {
        let dev = announce_device(&self.info, "Shutter");
        let mut r: Vec<MqttMsg> = Vec::new();
        r.push(announce_trigger(&self.info, &dev, 1, "short", "0"));
        r.push(announce_trigger(&self.info, &dev, 1, "short", "1"));
        r.push(announce_trigger(&self.info, &dev, 2, "short", "0"));
        r.push(announce_trigger(&self.info, &dev, 2, "short", "1"));
        r.push(self.cover_entity(&dev));
        assert(r.deep_view() =~= ShutterView::announcements(self.info@));
        r
    }

    /// The bus addresses of the shutter: sub-addresses 1 and 3.
    fn register_1wire(&self) -> (r: Vec<String>) {
        let subs: [u8; 2] = [1, 3];
        assert(subs@ =~= seq![1u8, 3u8]);
        self.info.mkbusaddrs(subs.as_slice())
    }

    /// Takes a word of the shutter that arrived at `now`, a time in
    /// milliseconds on a clock that does not go back.
    fn handle_1wire(&mut self, resp: OW, now: u64) -> (r: Result<TwoWay, Error>) {
        match resp.msg {
            Msg::Devstatus(s) => match s.subaddr() {
                Some(1) => {
                    if s.val < 0 {
                        return Err(Error::Value(signed_text(s.val as i64)));
                    }
                    let mut res = digital_io(&self.info, 2, "in", s.val, None);
                    res.append(digital_io(&self.info, 2, "button", s.val, Some(self.buttons)));
                    self.buttons = s.val;
                    assert(res@.ow =~= Seq::<Seq<char>>::empty());
                    Ok(res)
                },
                _ => Ok(self.drive(s.val, now)),
            },
            _ => Ok(TwoWay::empty()),
        }
    }

    /// The command topic of the shutter, with token 0.
    fn register_mqtt(&self) -> (r: Vec<(String, Token)>) {
        let mut r: Vec<(String, Token)> = Vec::new();
        r.push((self.info.topic("set"), 0));
        assert(r.deep_view() =~= seq![(self.info@.topic("set"@), 0i32)]);
        r
    }

    /// Turns a command into the controller command that drives the shutter.
    fn handle_mqtt(&self, msg: &MqttMsg, token: Token) -> (r: Result<TwoWay, Error>) {
        let pl = msg.payload();
        if str_eq(pl, "CLOSE") {
            Ok(TwoWay::from_1wire(self.drive_code(1).as_str()))
        } else if str_eq(pl, "OPEN") {
            Ok(TwoWay::from_1wire(self.drive_code(2).as_str()))
        } else if str_eq(pl, "STOP") {
            Ok(TwoWay::from_1wire(self.drive_code(3).as_str()))
        } else {
            Ok(TwoWay::empty())
        }
    }
}

} // verus!
