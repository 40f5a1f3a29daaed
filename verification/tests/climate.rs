use esera_mqtt::climate::{
    Action, Climate, Conf, Error, Mode, TOK_AUX_STATE, TOK_DEW, TOK_HEAT_STATE, TOK_MODE_SET,
    TOK_TEMP, TOK_TEMP_SET,
};
use esera_mqtt::MqttMsg;

fn conf() -> Conf {
    Conf {
        heat_state: "stat/heat".into(),
        heat_cmnd: "cmnd/heat".into(),
        aux_state: Some("stat/aux".into()),
        aux_cmnd: Some("cmnd/aux".into()),
        temp: "sensor/temp".into(),
        dew: Some("sensor/dew".into()),
        offset: 0,
    }
}

fn state(action: &str, mode: &str, current: &str, target: &str) -> Vec<MqttMsg> {
    vec![
        MqttMsg::new("homeassistant/climate/virt/wz/action", action),
        MqttMsg::new("homeassistant/climate/virt/wz/mode", mode),
        MqttMsg::new("homeassistant/climate/virt/wz/current", current),
        MqttMsg::new("homeassistant/climate/virt/wz/target", target),
    ]
}

fn with(mut base: Vec<MqttMsg>, more: Vec<MqttMsg>) -> Vec<MqttMsg> {
    base.extend(more);
    base
}

#[test]
fn hvac_hysteresis() {
    let mut uut = Climate::new("wz", conf());
    assert_eq!(uut.temp_set, 2100);
    assert!(!uut.heating_on);
    // 20.9 is below the setpoint: the heating goes on
    assert_eq!(
        uut.process(TOK_TEMP, "sensor/temp", "20.9").unwrap(),
        with(state("idle", "heat", "20.9", "21"), vec![MqttMsg::new("cmnd/heat", "1")])
    );
    // the gap of 0.5 is below 0.8: the auxiliary heating stays off
    assert_eq!(
        uut.process(TOK_TEMP, "sensor/temp", "20.5").unwrap(),
        with(state("idle", "heat", "20.5", "21"), vec![MqttMsg::new("cmnd/heat", "1")])
    );
    // a gap beyond 0.8 brings the auxiliary heating in
    assert_eq!(
        uut.process(TOK_TEMP, "sensor/temp", "20.1").unwrap(),
        with(
            state("idle", "heat", "20.1", "21"),
            vec![MqttMsg::new("cmnd/heat", "1"), MqttMsg::new("cmnd/aux", "1")]
        )
    );
    // the actors report
    assert_eq!(
        uut.process(TOK_HEAT_STATE, "stat/heat", "1").unwrap(),
        state("heating", "heat", "20.1", "21")
    );
    assert_eq!(uut.process(TOK_AUX_STATE, "stat/aux", "on").unwrap(), vec![]);
    assert!(uut.aux_on);
    assert_eq!(uut.action(), Action::Heating);
    // 20.95 is within 0.1 of the setpoint: the auxiliary heating goes off
    assert_eq!(
        uut.process(TOK_TEMP, "sensor/temp", "20.95").unwrap(),
        with(state("heating", "heat", "20.95", "21"), vec![MqttMsg::new("cmnd/aux", "0")])
    );
    assert_eq!(uut.process(TOK_AUX_STATE, "stat/aux", "0").unwrap(), vec![]);
    // 21.5 has reached the setpoint: the heating goes off
    assert_eq!(
        uut.process(TOK_TEMP, "sensor/temp", "21.5").unwrap(),
        with(state("heating", "heat", "21.5", "21"), vec![MqttMsg::new("cmnd/heat", "0")])
    );
    assert_eq!(
        uut.process(TOK_HEAT_STATE, "stat/heat", "0").unwrap(),
        state("idle", "heat", "21.5", "21")
    );
}

#[test]
fn small_changes_are_no_changes() {
    let mut uut = Climate::new("wz", conf());
    assert_eq!(uut.process(TOK_TEMP, "t", "21.02").unwrap(), vec![]);
    assert_eq!(uut.process(TOK_TEMP, "t", "20.98").unwrap(), vec![]);
    assert_eq!(uut.temp_cur, 2100);
    assert_eq!(uut.process(TOK_TEMP_SET, "t", "21.019").unwrap(), vec![]);
    // what stands behind the second decimal place is cut off before the comparison
    assert_eq!(uut.process(TOK_TEMP_SET, "t", "21.029").unwrap(), vec![]);
    assert_eq!(uut.temp_set, 2100);
    assert_eq!(uut.process(TOK_TEMP, "t", "21.03").unwrap().len(), 4);
    assert_eq!(uut.temp_cur, 2103);
    assert_eq!(uut.process(TOK_HEAT_STATE, "t", "off").unwrap(), vec![]);
    assert_eq!(uut.process(TOK_MODE_SET, "t", "heat").unwrap(), vec![]);
    assert_eq!(uut.process(TOK_DEW, "t", "12").unwrap(), vec![]);
    assert_eq!(uut.process(99, "t", "12").unwrap(), vec![]);
}

#[test]
fn setpoint_mode_and_offset() {
    let mut c = conf();
    c.offset = -50;
    c.aux_cmnd = None;
    let mut uut = Climate::new("wz", c);
    assert_eq!(
        uut.process(TOK_TEMP_SET, "x", "22.5").unwrap(),
        with(
            state("idle", "heat", "21", "22.5"),
            vec![
                MqttMsg::new("cmnd/heat", "1"),
                MqttMsg::retain("homeassistant/climate/virt/wz/target/set", "22.5"),
            ]
        )
    );
    // the offset is added to what the sensor reports; without a topic for it the
    // auxiliary heating is never switched
    assert_eq!(
        uut.process(TOK_TEMP, "x", "20").unwrap(),
        with(state("idle", "heat", "19.5", "22.5"), vec![MqttMsg::new("cmnd/heat", "1")])
    );
    uut.process(TOK_HEAT_STATE, "x", "true").unwrap();
    uut.process(TOK_AUX_STATE, "x", "1").unwrap();
    assert_eq!(
        uut.process(TOK_MODE_SET, "x", "off").unwrap(),
        with(
            state("idle", "off", "19.5", "22.5"),
            vec![
                MqttMsg::new("cmnd/heat", "0"),
                MqttMsg::retain("homeassistant/climate/virt/wz/mode/set", "off"),
            ]
        )
    );
    assert_eq!(uut.mode, Mode::Off);
    assert_eq!(uut.action(), Action::Idle);
}

#[test]
fn off_switches_both_heatings_off() {
    let mut uut = Climate::new("wz", conf());
    uut.heating_on = true;
    uut.aux_on = true;
    uut.mode = Mode::Off;
    assert_eq!(
        uut.eval(),
        with(
            state("idle", "off", "21", "21"),
            vec![MqttMsg::new("cmnd/heat", "0"), MqttMsg::new("cmnd/aux", "0")]
        )
    );
}

#[test]
fn bad_payloads_are_refused() {
    let mut uut = Climate::new("wz", conf());
    assert_eq!(
        uut.process(TOK_TEMP_SET, "x", "warm"),
        Err(Error::FloatFormat("warm".into()))
    );
    assert_eq!(uut.process(TOK_TEMP, "x", ""), Err(Error::FloatFormat("".into())));
    assert_eq!(uut.process(TOK_MODE_SET, "x", "cool"), Err(Error::Keyword("cool".into())));
    assert_eq!(uut, Climate::new("wz", conf()));
}

#[test]
fn subscriptions_name_the_tokens() {
    let uut = Climate::new("wz", conf());
    assert_eq!(
        uut.subscribe(),
        vec![
            (TOK_HEAT_STATE, "stat/heat".to_string()),
            (TOK_TEMP, "sensor/temp".to_string()),
            (TOK_MODE_SET, "homeassistant/climate/virt/wz/mode/set".to_string()),
            (TOK_TEMP_SET, "homeassistant/climate/virt/wz/target/set".to_string()),
            (TOK_DEW, "sensor/dew".to_string()),
            (TOK_AUX_STATE, "stat/aux".to_string()),
        ]
    );
    let mut c = conf();
    c.dew = None;
    c.aux_state = None;
    assert_eq!(Climate::new("wz", c).subscribe().len(), 4);
}
