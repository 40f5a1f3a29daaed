use esera_mqtt::device::shutter::{Motion, TravelTimes, DEF_TIME, FULL};
use esera_mqtt::parser::{parse, PResult};
use esera_mqtt::{Device, DeviceInfo, MqttMsg, Shutter, TwoWay};

fn ow(input: &str) -> esera_mqtt::OW {
    match parse(input.as_bytes()) {
        PResult::Done { msg, .. } => msg,
        other => panic!("no message: {:?}", other),
    }
}

fn shutter(close_ms: u64, open_ms: u64) -> Shutter {
    Shutter::with_times(
        DeviceInfo::new(1, "OWD8", "S8", "online", "11231", Some("West")).unwrap(),
        close_ms,
        open_ms,
    )
}

fn state(r: &TwoWay) -> (String, String) {
    match r.mqtt.as_slice() {
        [p, s] => {
            assert_eq!(p.topic(), "ESERA/1/West/position");
            assert_eq!(s.topic(), "ESERA/1/West/state");
            (p.payload().to_string(), s.payload().to_string())
        }
        other => panic!("{:?}", other),
    }
}

#[test]
fn shutter_auto_stop() {
    let mut uut = shutter(30_000, 30_000);
    uut.position = 0;
    uut.initial_pos = 0;
    // the drive reports that it opens
    let r = uut.handle_1wire(ow("1_OWD8_3|2\n"), 1_000).unwrap();
    assert_eq!(state(&r), ("0".to_string(), "opening".to_string()));
    assert!(r.ow.is_empty());
    assert_eq!(uut.motion, Motion::Open(1_000));
    let mut commands: Vec<String> = Vec::new();
    let mut last = String::new();
    for second in 1..=31u64 {
        let r = uut.handle_1wire(ow("1_OWD8_3|2\n"), 1_000 + second * 1_000).unwrap();
        commands.extend(r.ow.iter().cloned());
        last = state(&r).0;
        if second == 16 {
            assert_eq!(last, "50");
        }
        if second <= 30 {
            assert!(r.ow.is_empty(), "second {}", second);
        }
    }
    assert_eq!(commands, vec!["SET,OWD,SHT,8,3"]);
    assert_eq!(last, "100");
    assert_eq!(uut.position, FULL);
    // the drive reports the stop
    let r = uut.handle_1wire(ow("1_OWD8_3|3\n"), 33_000).unwrap();
    assert_eq!(state(&r), ("100".to_string(), "open".to_string()));
    assert_eq!(uut.motion, Motion::Stop);
    assert_eq!(uut.initial_pos, FULL);
}

#[test]
fn shutter_closes_and_stops_halfway() {
    let mut uut = Shutter::new(DeviceInfo::new(1, "OWD8", "S8", "online", "", Some("West")).unwrap());
    assert_eq!(uut.close_ms, DEF_TIME);
    assert_eq!(uut.position, FULL);
    assert_eq!(uut.state(), "open");
    let r = uut.handle_1wire(ow("1_OWD8_3|1\n"), 0).unwrap();
    assert_eq!(state(&r), ("100".to_string(), "closing".to_string()));
    // nothing moves in the first second
    let r = uut.handle_1wire(ow("1_OWD8_3|1\n"), 1_000).unwrap();
    assert_eq!(state(&r), ("100".to_string(), "closing".to_string()));
    let r = uut.handle_1wire(ow("1_OWD8_3|0\n"), 16_000).unwrap();
    assert_eq!(state(&r), ("75".to_string(), "closing".to_string()));
    let r = uut.handle_1wire(ow("1_OWD8_3|3\n"), 31_000).unwrap();
    assert_eq!(state(&r), ("50".to_string(), "stopped".to_string()));
    assert_eq!(uut.initial_pos, 50_000);
    let r = uut.handle_1wire(ow("1_OWD8_3|1\n"), 40_000).unwrap();
    assert_eq!(state(&r), ("50".to_string(), "closing".to_string()));
    let r = uut.handle_1wire(ow("1_OWD8_3|3\n"), 200_000).unwrap();
    assert_eq!(state(&r), ("0".to_string(), "closed".to_string()));
    assert!(r.ow.is_empty());
    // a clock that goes back moves nothing
    let r = uut.handle_1wire(ow("1_OWD8_3|2\n"), 500).unwrap();
    assert_eq!(state(&r).1, "opening");
    let r = uut.handle_1wire(ow("1_OWD8_3|2\n"), 100).unwrap();
    assert_eq!(state(&r), ("0".to_string(), "opening".to_string()));
}

#[test]
fn shutter_buttons_and_commands() {
    let mut uut = shutter(1, 1);
    assert_eq!(
        uut.handle_1wire(ow("1_OWD8_1|2\n"), 0).unwrap(),
        TwoWay::mqtt(vec![
            MqttMsg::new("ESERA/1/West/in/ch1", "0"),
            MqttMsg::new("ESERA/1/West/in/ch2", "1"),
            MqttMsg::new("ESERA/1/West/button/ch2", "1"),
        ])
    );
    assert_eq!(uut.buttons, 2);
    assert!(uut.handle_1wire(ow("1_OWD8_1|-2\n"), 0).is_err());
    let cmd = |p: &str| uut.handle_mqtt(&MqttMsg::new("ESERA/1/West/set", p), 0).unwrap();
    assert_eq!(cmd("CLOSE"), TwoWay::from_1wire("SET,OWD,SHT,8,1"));
    assert_eq!(cmd("OPEN"), TwoWay::from_1wire("SET,OWD,SHT,8,2"));
    assert_eq!(cmd("STOP"), TwoWay::from_1wire("SET,OWD,SHT,8,3"));
    assert_eq!(cmd("open"), TwoWay::empty());
    assert_eq!(uut.register_mqtt(), vec![("ESERA/1/West/set".to_string(), 0)]);
    assert_eq!(uut.register_1wire(), vec!["OWD8_1", "OWD8_3"]);
}

#[test]
fn shutter_without_travel_time_is_there_at_once() {
    let mut uut = shutter(0, 0);
    uut.handle_1wire(ow("1_OWD8_3|1\n"), 10).unwrap();
    let r = uut.handle_1wire(ow("1_OWD8_3|0\n"), 10).unwrap();
    assert_eq!(state(&r), ("0".to_string(), "closing".to_string()));
    assert!(r.ow.is_empty());
    let r = uut.handle_1wire(ow("1_OWD8_3|0\n"), 11).unwrap();
    assert_eq!(r.ow, vec!["SET,OWD,SHT,8,3"]);
}

fn times(settings: &[(&str, &str)]) -> TravelTimes {
    TravelTimes {
        settings: settings.iter().map(|(k, v)| (k.to_string(), v.to_string())).collect(),
    }
}

#[test]
fn travel_times_come_from_the_settings() {
    let named = DeviceInfo::new(1, "OWD8", "S8", "online", "", Some("West")).unwrap();
    let bare = DeviceInfo::new(12, "OWD9", "S9", "online", "", None).unwrap();
    let t = times(&[
        ("SHUTTER_1_West_CLOSE_TIME", " 30 "),
        ("SHUTTER_1_West_OPEN_TIME", "25.5"),
        ("SHUTTER_1_West_OPEN_TIME", "99"),
        ("SHUTTER_12_OWD9_CLOSE_TIME", "fast"),
        ("SHUTTER_12_OWD9_OPEN_TIME", "-3"),
        ("SHUTTER_2_West_OPEN_TIME", "7"),
        ("shutter_1_West_CLOSE_TIME", "8"),
    ]);
    assert_eq!(t.time_to(&named, true), 30_000);
    assert_eq!(t.time_to(&named, false), 25_500);
    assert_eq!(t.time_to(&bare, true), DEF_TIME);
    assert_eq!(t.time_to(&bare, false), DEF_TIME);
    assert_eq!(TravelTimes::default().time_to(&named, true), DEF_TIME);
    assert_eq!(times(&[("SHUTTER_1_West_CLOSE_TIME", "0")]).time_to(&named, true), 0);
    assert_eq!(times(&[("SHUTTER_1_West_CLOSE_TIME", "0.019")]).time_to(&named, true), 10);
    assert_eq!(times(&[("SHUTTER_1_West_CLOSE_TIME", "")]).time_to(&named, true), DEF_TIME);
    assert_eq!(
        times(&[("SHUTTER_1_West_CLOSE_TIME", "21474836.47")]).time_to(&named, true),
        21_474_836_470
    );
    let uut = Shutter::from_settings(named.clone(), &t);
    assert_eq!(uut, Shutter::with_times(named, 30_000, 25_500));
    assert_eq!(Shutter::from_settings(bare.clone(), &t), Shutter::new(bare));
}
