use esera_mqtt::device::{digital_io, Error};
use esera_mqtt::parser::{parse, PResult};
use esera_mqtt::text::{parse_centi, parse_decimal, Decimal};
use esera_mqtt::{
    bool2str, centi_text, str2bool, AirQuality, BinarySensor, Controller2, Device, DeviceInfo,
    Dimmer, Hub, Model, MqttMsg, Status, Switch8, TempHum, TwoWay, Unknown, OW,
};

fn ow(input: &str) -> OW {
    match parse(input.as_bytes()) {
        PResult::Done { msg, .. } => msg,
        other => panic!("no message: {:?}", other),
    }
}

/// Checks the one publication that a device makes of a controller line.
fn cmp_ow(uut: &mut dyn Device, input: &str, top: &str, pl: &str) {
    match uut.handle_1wire(ow(input), 0).unwrap().mqtt.as_slice() {
        [MqttMsg::Pub { topic, payload, .. }] => {
            assert_eq!(topic, top);
            assert_eq!(payload, pl);
        }
        other => panic!("Unexpected result: {:?}", other),
    }
}

fn info(busid: &str, name: Option<&str>) -> DeviceInfo {
    DeviceInfo::new(1, busid, "", "online", "", name).unwrap()
}

#[test]
fn airquality_devstatus() {
    let mut uut = AirQuality::new(DeviceInfo::new(1, "OWD3", "", "online", "", None).unwrap());
    cmp_ow(&mut uut, "1_OWD3_1|1976\n", "ESERA/1/OWD3/temp", "19.76");
    cmp_ow(&mut uut, "1_OWD3_2|497\n", "ESERA/1/OWD3/vdd", "4.97");
    cmp_ow(&mut uut, "1_OWD3_3|5456\n", "ESERA/1/OWD3/hum", "54.56");
    cmp_ow(&mut uut, "1_OWD3_4|0\n", "ESERA/1/OWD3/dew", "0");
    cmp_ow(&mut uut, "1_OWD3_5|186518\n", "ESERA/1/OWD3/co2", "1865.18");
}

#[test]
fn temphum_devstatus() {
    let mut uut = TempHum::new(DeviceInfo::new(1, "OWD2", "", "online", "", None).unwrap());
    cmp_ow(&mut uut, "1_OWD2_1|2087\n", "ESERA/1/OWD2/temp", "20.87");
    cmp_ow(&mut uut, "1_OWD2_1|-97\n", "ESERA/1/OWD2/temp", "-0.97");
    cmp_ow(&mut uut, "1_OWD2_2|510\n", "ESERA/1/OWD2/vdd", "5.1");
    cmp_ow(&mut uut, "1_OWD2_3|5980\n", "ESERA/1/OWD2/hum", "59.8");
    cmp_ow(&mut uut, "1_OWD2_4|332\n", "ESERA/1/OWD2/dew", "3.32");
}

#[test]
fn hub_devstatus() {
    let mut uut = Hub::new(DeviceInfo::new(1, "OWD1", "", "online", "", Some("HUB")).unwrap());
    cmp_ow(&mut uut, "1_OWD3_1|25119\n", "ESERA/1/HUB/cur_12", "251.19");
    cmp_ow(&mut uut, "1_OWD3_2|1201\n", "ESERA/1/HUB/vcc_12", "12.01");
    cmp_ow(&mut uut, "1_OWD3_3|19518\n", "ESERA/1/HUB/cur_5", "195.18");
    cmp_ow(&mut uut, "1_OWD3_4|490\n", "ESERA/1/HUB/vcc_5", "4.9");
}

#[test]
fn digio_mqtt() {
    assert_eq!(
        digital_io(
            &DeviceInfo::new(1, "SYS", "", "online", "", None).unwrap(),
            3,
            "in",
            0b101,
            None
        ),
        TwoWay::new(
            vec![
                MqttMsg::new("ESERA/1/SYS/in/ch1", "1"),
                MqttMsg::new("ESERA/1/SYS/in/ch2", "0"),
                MqttMsg::new("ESERA/1/SYS/in/ch3", "1"),
            ],
            vec![]
        )
    )
}

#[test]
fn digio_diff_against_old_state() {
    assert_eq!(
        digital_io(
            &DeviceInfo::new(1, "SYS", "", "online", "", None).unwrap(),
            3,
            "but",
            0b010,
            Some(0b100)
        ),
        TwoWay::new(
            vec![
                MqttMsg::new("ESERA/1/SYS/but/ch2", "1"),
                MqttMsg::new("ESERA/1/SYS/but/ch3", "0"),
            ],
            vec![]
        )
    )
}

#[test]
fn centi_formats() {
    assert_eq!(centi_text(0), "0");
    assert_eq!(centi_text(5), "0.05");
    assert_eq!(centi_text(-5), "-0.05");
    assert_eq!(centi_text(50), "0.5");
    assert_eq!(centi_text(100), "1");
    assert_eq!(centi_text(-100), "-1");
    assert_eq!(centi_text(1976), "19.76");
    assert_eq!(centi_text(i32::MAX), "21474836.47");
    assert_eq!(centi_text(i32::MIN), "-21474836.48");
}

#[test]
fn info_builds_topics_and_names() {
    let i = DeviceInfo::new(7, "OWD12", "EF00", "5", "11150", Some("  Flur ")).unwrap();
    assert_eq!(i.status, Status::Offline);
    assert_eq!(i.name, Some("Flur".to_string()));
    assert_eq!(i.name(), "Flur");
    assert_eq!(i.topic("temp"), "ESERA/7/Flur/temp");
    assert_eq!(i.status_topic(), "ESERA/7/Flur/status");
    assert_eq!(i.channel_topic("set", 8), "ESERA/7/Flur/set/ch8");
    assert_eq!(i.mqtt_msg("hum", "1"), MqttMsg::new("ESERA/7/Flur/hum", "1"));
    assert_eq!(i.mkbusaddrs(&[1, 3, 14]), vec!["OWD12_1", "OWD12_3", "OWD12_14"]);
    assert_eq!(i.devno(), "12");
    let sys = DeviceInfo::new(255, "SYS", "", "online", "", Some("   ")).unwrap();
    assert_eq!(sys.name, None);
    assert_eq!(sys.name(), "SYS");
    assert_eq!(sys.devno(), "SYS");
    assert_eq!(sys.topic("dio"), "ESERA/255/SYS/dio");
    assert!(DeviceInfo::new(1, "SYS", "", "4", "", None).is_err());
    assert!(DeviceInfo::new(1, "SYS", "", "Online", "", None).is_err());
    assert_eq!(DeviceInfo::default().status, Status::Unconfigured);
}

#[test]
fn status_names_and_codes() {
    for (code, name, st) in [
        ("0", "online", Status::Online),
        ("1", "error_1", Status::Err1),
        ("2", "error_2", Status::Err2),
        ("3", "error_3", Status::Err3),
        ("5", "offline", Status::Offline),
        ("10", "unconfigured", Status::Unconfigured),
    ] {
        assert_eq!(Status::from_text(code), Some(st));
        assert_eq!(Status::from_text(name), Some(st));
        assert_eq!(st.as_str(), name);
    }
    assert_eq!(Status::from_text("4"), None);
    assert_eq!(Status::from_text(""), None);
    assert_eq!(Status::default(), Status::Unconfigured);
}

#[test]
fn bool_texts() {
    assert_eq!(bool2str(0), "0");
    assert_eq!(bool2str(1), "1");
    assert_eq!(bool2str(4), "1");
    assert!(str2bool("1"));
    assert!(str2bool("on"));
    assert!(str2bool("true"));
    assert!(!str2bool("0"));
    assert!(!str2bool("ON"));
    assert!(!str2bool(""));
}

#[test]
fn select_by_article_number() {
    let pick = |artno: &str| Model::select(DeviceInfo::new(1, "OWD1", "S", "0", artno, None).unwrap());
    assert!(matches!(pick("11150"), Model::TempHum(_)));
    assert!(matches!(pick("11151"), Model::AirQuality(_)));
    assert!(matches!(pick("11216"), Model::BinarySensor(_)));
    assert!(matches!(pick("11220"), Model::Switch8(_)));
    assert!(matches!(pick("11228"), Model::Switch8(_)));
    assert!(matches!(pick("11229"), Model::Switch8(_)));
    assert!(matches!(pick("11221"), Model::Dimmer(_)));
    assert!(matches!(pick("11322"), Model::Hub(_)));
    assert!(matches!(pick("11340"), Model::Controller2(_)));
    assert!(matches!(pick("DS2408"), Model::Unknown(_)));
    assert!(matches!(pick("11231"), Model::Unknown(_)));
    assert!(matches!(pick(""), Model::Unknown(_)));
    assert!(matches!(Model::default(), Model::Unknown(_)));
    assert!(!Model::default().configured());
    assert!(pick("11150").configured());
    assert_eq!(pick("11150").model(), "TempHum");
    assert_eq!(pick("x").model(), "Unknown");
}

#[test]
fn sensor_without_subaddress_is_refused() {
    let mut uut = AirQuality::new(info("OWD3", None));
    match uut.handle_1wire(ow("1_OWD3|12\n"), 0) {
        Err(Error::BusId(addr)) => assert_eq!(addr, "OWD3"),
        other => panic!("{:?}", other),
    }
    match uut.handle_1wire(ow("1_OWD3_x|12\n"), 0) {
        Err(Error::BusId(addr)) => assert_eq!(addr, "OWD3_x"),
        other => panic!("{:?}", other),
    }
    assert_eq!(uut.handle_1wire(ow("1_KAL|1\n"), 0).unwrap(), TwoWay::empty());
    assert_eq!(
        uut.register_1wire(),
        vec!["OWD3_1", "OWD3_2", "OWD3_3", "OWD3_4", "OWD3_5"]
    );
    assert_eq!(
        TempHum::new(info("OWD4", Some("x"))).register_1wire(),
        vec!["OWD4_1", "OWD4_2", "OWD4_3", "OWD4_4"]
    );
    assert_eq!(
        Hub::new(info("OWD1", None)).register_1wire(),
        vec!["OWD1_1", "OWD1_2", "OWD1_3", "OWD1_4"]
    );
}

#[test]
fn switch8_edge_detection() {
    let mut uut = Switch8::new(info("OWD5", None));
    // the first word only brings levels
    let first = uut.handle_1wire(ow("1_OWD5_1|0\n"), 0).unwrap();
    assert_eq!(first.mqtt.len(), 8);
    assert!(first.mqtt.iter().all(|m| m.topic().starts_with("ESERA/1/OWD5/in/ch") && m.payload() == "0"));
    let second = uut.handle_1wire(ow("1_OWD5_1|5\n"), 0).unwrap();
    let mut expected: Vec<MqttMsg> = (1..=8)
        .map(|ch| {
            MqttMsg::new(
                &format!("ESERA/1/OWD5/in/ch{}", ch),
                if ch == 1 || ch == 3 { "1" } else { "0" },
            )
        })
        .collect();
    expected.push(MqttMsg::new("ESERA/1/OWD5/button/ch1", "1"));
    expected.push(MqttMsg::new("ESERA/1/OWD5/button/ch3", "1"));
    assert_eq!(second, TwoWay::mqtt(expected));
    let third = uut.handle_1wire(ow("1_OWD5_1|4\n"), 0).unwrap();
    assert_eq!(third.mqtt.len(), 9);
    assert_eq!(third.mqtt[8], MqttMsg::new("ESERA/1/OWD5/button/ch1", "0"));
    let out = uut.handle_1wire(ow("1_OWD5_3|128\n"), 0).unwrap();
    assert_eq!(out.mqtt.len(), 8);
    assert_eq!(out.mqtt[7], MqttMsg::new("ESERA/1/OWD5/out/ch8", "1"));
    assert_eq!(uut.inputs, Some(4));
    assert!(matches!(uut.handle_1wire(ow("1_OWD5_1|-1\n"), 0), Err(Error::Value(v)) if v == "-1"));
}

#[test]
fn switch8_commands() {
    let uut = Switch8::new(info("OWD5", Some("K1")));
    assert_eq!(
        uut.handle_mqtt(&MqttMsg::new("ESERA/1/K1/set/ch2", "1"), 1).unwrap(),
        TwoWay::from_1wire("SET,OWD,OUT,5,1,1")
    );
    assert_eq!(
        uut.handle_mqtt(&MqttMsg::new("ESERA/1/K1/set/ch8", "off"), 7).unwrap(),
        TwoWay::from_1wire("SET,OWD,OUT,5,7,0")
    );
    assert_eq!(uut.handle_mqtt(&MqttMsg::new("x", "1"), 8).unwrap(), TwoWay::empty());
    assert_eq!(uut.handle_mqtt(&MqttMsg::new("x", "1"), -1).unwrap(), TwoWay::empty());
    let subs = uut.register_mqtt();
    assert_eq!(subs.len(), 8);
    assert_eq!(subs[0], ("ESERA/1/K1/set/ch1".to_string(), 0));
    assert_eq!(subs[7], ("ESERA/1/K1/set/ch8".to_string(), 7));
    assert_eq!(uut.register_1wire(), vec!["OWD5_1", "OWD5_3"]);
}

#[test]
fn binary_sensor_levels() {
    let mut uut = BinarySensor::new(info("OWD9", None));
    let r = uut.handle_1wire(ow("1_OWD9_1|129\n"), 0).unwrap();
    assert_eq!(r.mqtt.len(), 8);
    assert_eq!(r.mqtt[0], MqttMsg::new("ESERA/1/OWD9/in/ch1", "1"));
    assert_eq!(r.mqtt[1], MqttMsg::new("ESERA/1/OWD9/in/ch2", "0"));
    assert_eq!(r.mqtt[7], MqttMsg::new("ESERA/1/OWD9/in/ch8", "1"));
    assert!(r.ow.is_empty());
    assert!(matches!(uut.handle_1wire(ow("1_OWD9_1|-3\n"), 0), Err(Error::Value(v)) if v == "-3"));
    assert_eq!(uut.register_1wire(), vec!["OWD9_1"]);
    assert_eq!(uut.announce().len(), 8);
}

#[test]
fn dimmer_words_and_commands() {
    let mut uut = Dimmer::new(info("OWD5", Some("K9")));
    assert_eq!(
        uut.handle_1wire(ow("1_OWD5_1|2\n"), 0).unwrap(),
        TwoWay::mqtt(vec![
            MqttMsg::new("ESERA/1/K9/in/ch1", "0"),
            MqttMsg::new("ESERA/1/K9/in/ch2", "1"),
        ])
    );
    assert_eq!(
        uut.handle_1wire(ow("1_OWD5_3|17\n"), 0).unwrap(),
        TwoWay::from_mqtt(MqttMsg::new("ESERA/1/K9/out/ch1", "17"))
    );
    assert_eq!(
        uut.handle_1wire(ow("1_OWD5_4|0\n"), 0).unwrap(),
        TwoWay::from_mqtt(MqttMsg::new("ESERA/1/K9/out/ch2", "0"))
    );
    assert_eq!(uut.handle_1wire(ow("1_OWD5_2|1\n"), 0).unwrap(), TwoWay::empty());
    assert_eq!(uut.handle_1wire(ow("1_OWD5|1\n"), 0).unwrap(), TwoWay::empty());
    assert_eq!(
        uut.handle_mqtt(&MqttMsg::new("t", "31"), 2).unwrap(),
        TwoWay::from_1wire("SET,OWD,DIM,5,2,31")
    );
    assert_eq!(
        uut.handle_mqtt(&MqttMsg::new("t", "+0"), 1).unwrap(),
        TwoWay::from_1wire("SET,OWD,DIM,5,1,0")
    );
    assert_eq!(uut.handle_mqtt(&MqttMsg::new("t", "32"), 1).unwrap(), TwoWay::empty());
    assert_eq!(uut.handle_mqtt(&MqttMsg::new("t", "5"), 3).unwrap(), TwoWay::empty());
    for bad in ["256", "", "-1", "1.0", "x"] {
        assert!(
            matches!(uut.handle_mqtt(&MqttMsg::new("t", bad), 1), Err(Error::Value(v)) if v == "0..32"),
            "{}",
            bad
        );
    }
    assert_eq!(
        uut.register_mqtt(),
        vec![("ESERA/1/K9/set/ch1".to_string(), 1), ("ESERA/1/K9/set/ch2".to_string(), 2)]
    );
    assert_eq!(uut.register_1wire(), vec!["OWD5_1", "OWD5_3", "OWD5_4"]);
    assert_eq!(uut.announce().len(), 6);
}

#[test]
fn controller2_words() {
    let mut uut = Controller2::new(DeviceInfo::new(1, "SYS", "S1", "online", "11340", None).unwrap());
    assert_eq!(uut.init(), vec!["SET,SYS,OUTA,500", "GET,SYS,DIO"]);
    assert_eq!(uut.register_1wire(), vec!["SYS1_1", "SYS2_1", "SYS3"]);
    let r = uut.handle_1wire(ow("1_SYS1_1|6\n"), 0).unwrap();
    assert_eq!(
        r,
        TwoWay::mqtt(vec![
            MqttMsg::new("ESERA/1/SYS/in/ch1", "0"),
            MqttMsg::new("ESERA/1/SYS/in/ch2", "1"),
            MqttMsg::new("ESERA/1/SYS/in/ch3", "1"),
            MqttMsg::new("ESERA/1/SYS/in/ch4", "0"),
            MqttMsg::new("ESERA/1/SYS/button/ch2", "1"),
            MqttMsg::new("ESERA/1/SYS/button/ch3", "1"),
        ])
    );
    assert_eq!(uut.inputs, 6);
    let r = uut.handle_1wire(ow("1_SYS2_1|16\n"), 0).unwrap();
    assert_eq!(r.mqtt.len(), 5);
    assert_eq!(r.mqtt[4], MqttMsg::new("ESERA/1/SYS/out/ch5", "1"));
    assert_eq!(
        uut.handle_1wire(ow("1_SYS3|500\n"), 0).unwrap(),
        TwoWay::from_mqtt(MqttMsg::new("ESERA/1/SYS/out/ana", "5"))
    );
    assert_eq!(
        uut.handle_1wire(ow("1_DIO|1\n"), 0).unwrap(),
        TwoWay::from_mqtt(MqttMsg::new("ESERA/1/SYS/dio", "Independent+Edge"))
    );
    assert!(matches!(uut.handle_1wire(ow("1_SYS1_1|-6\n"), 0), Err(Error::Value(v)) if v == "-6"));
}

#[test]
fn controller2_commands() {
    let uut = Controller2::new(DeviceInfo::new(1, "SYS", "S1", "online", "11340", None).unwrap());
    let cmd = |payload: &str, token: i32| uut.handle_mqtt(&MqttMsg::new("t", payload), token);
    assert_eq!(cmd("1", 1).unwrap(), TwoWay::from_1wire("SET,SYS,OUT,1,1"));
    assert_eq!(cmd("false", 5).unwrap(), TwoWay::from_1wire("SET,SYS,OUT,5,0"));
    assert_eq!(cmd("4.2", 6).unwrap(), TwoWay::from_1wire("SET,SYS,OUTA,420"));
    assert_eq!(cmd("0", 6).unwrap(), TwoWay::from_1wire("SET,SYS,OUTA,0"));
    assert_eq!(cmd("10.0", 6).unwrap(), TwoWay::from_1wire("SET,SYS,OUTA,1000"));
    assert_eq!(cmd(".5", 6).unwrap(), TwoWay::from_1wire("SET,SYS,OUTA,50"));
    assert_eq!(cmd("+7.", 6).unwrap(), TwoWay::from_1wire("SET,SYS,OUTA,700"));
    assert_eq!(cmd("3.999", 6).unwrap(), TwoWay::from_1wire("SET,SYS,OUTA,399"));
    assert_eq!(cmd("10.000", 6).unwrap(), TwoWay::from_1wire("SET,SYS,OUTA,1000"));
    assert_eq!(cmd("9.999", 6).unwrap(), TwoWay::from_1wire("SET,SYS,OUTA,999"));
    assert_eq!(cmd("-0", 6).unwrap(), TwoWay::from_1wire("SET,SYS,OUTA,0"));
    assert_eq!(cmd("-0.000", 6).unwrap(), TwoWay::from_1wire("SET,SYS,OUTA,0"));
    assert_eq!(cmd("0.001", 6).unwrap(), TwoWay::from_1wire("SET,SYS,OUTA,0"));
    for bad in [
        "10.01", "10.001", "10.0000000001", "-0.01", "-0.001", "-0.0000001", "-1", "11", "", ".",
        "abc", "1e1", "inf", "4,2", "99999999999",
    ] {
        assert!(matches!(cmd(bad, 6), Err(Error::Value(v)) if v == bad), "{}", bad);
    }
    assert_eq!(cmd("1", 0).unwrap(), TwoWay::empty());
    assert_eq!(cmd("1", 7).unwrap(), TwoWay::empty());
    let subs = uut.register_mqtt();
    assert_eq!(subs.len(), 6);
    assert_eq!(subs[0], ("ESERA/1/SYS/set/ch1".to_string(), 1));
    assert_eq!(subs[4], ("ESERA/1/SYS/set/ch5".to_string(), 5));
    assert_eq!(subs[5], ("ESERA/1/SYS/set/ana".to_string(), 6));
}

#[test]
fn unknown_does_nothing() {
    let mut uut = Unknown::new(info("OWD7", None));
    assert!(!uut.configured());
    assert_eq!(uut.model(), "Unknown");
    assert_eq!(uut.name(), "OWD7");
    assert_eq!(uut.handle_1wire(ow("1_OWD7_1|5\n"), 0).unwrap(), TwoWay::empty());
    assert_eq!(uut.handle_mqtt(&MqttMsg::new("t", "1"), 0).unwrap(), TwoWay::empty());
    assert!(uut.register_1wire().is_empty());
    assert!(uut.register_mqtt().is_empty());
    assert!(uut.announce().is_empty());
    assert!(uut.init().is_empty());
}

#[test]
fn set_status_publishes_retained() {
    let mut uut = Model::select(DeviceInfo::new(2, "OWD3", "S", "0", "11150", Some("Bad")).unwrap());
    assert_eq!(
        uut.set_status(Status::Err2),
        MqttMsg::retain("ESERA/2/Bad/status", "error_2")
    );
    assert_eq!(uut.info().status, Status::Err2);
    assert_eq!(uut.name(), "Bad");
}

#[test]
fn decimals_are_read_with_sign_and_cut() {
    let d = |centi, minus, cut| Some(Decimal { centi, minus, cut });
    assert_eq!(parse_decimal("5"), d(500, false, false));
    assert_eq!(parse_decimal("+5.25"), d(525, false, false));
    assert_eq!(parse_decimal("5.250"), d(525, false, false));
    assert_eq!(parse_decimal("5.259"), d(525, false, true));
    assert_eq!(parse_decimal("5.2500001"), d(525, false, true));
    assert_eq!(parse_decimal("-5.259"), d(-525, true, true));
    assert_eq!(parse_decimal("-0.001"), d(0, true, true));
    assert_eq!(parse_decimal("10.001"), d(1000, false, true));
    assert_eq!(parse_decimal("10.000"), d(1000, false, false));
    assert_eq!(parse_decimal("21.029"), d(2102, false, true));
    assert_eq!(parse_decimal("-0"), d(0, true, false));
    assert_eq!(parse_decimal(".5"), d(50, false, false));
    assert_eq!(parse_decimal("5."), d(500, false, false));
    assert_eq!(parse_decimal("21474836.47"), d(2147483647, false, false));
    assert_eq!(parse_decimal("21474836.48"), None);
    for bad in ["", "+", "-", ".", "1e1", "inf", "NaN", "1.2.3", " 1", "1 ", "0x10", "1,5"] {
        assert_eq!(parse_decimal(bad), None, "{:?}", bad);
        assert_eq!(parse_centi(bad), None, "{:?}", bad);
    }
    assert_eq!(parse_centi("-5.259"), Some(-525));
    assert!(Decimal { centi: 1000, minus: false, cut: false }.is_within(1000));
    assert!(!Decimal { centi: 1000, minus: false, cut: true }.is_within(1000));
    assert!(Decimal { centi: 999, minus: false, cut: true }.is_within(1000));
    assert!(Decimal { centi: 0, minus: true, cut: false }.is_within(1000));
    assert!(!Decimal { centi: 0, minus: true, cut: true }.is_within(1000));
    assert!(!Decimal { centi: -1, minus: true, cut: false }.is_within(1000));
}
