use esera_mqtt::bridge::{endpoint, Bridge, Routed, DEFAULT_PORT};
use esera_mqtt::mqtt::{
    birth, connect_step, next_retry, process_packet, split_credentials, ConnectEvent, ConnectStep,
    Error as MqttError, Incoming, FIRST_RETRY,
};
use esera_mqtt::parser::{parse, PResult};
use esera_mqtt::routing::Locator;
use esera_mqtt::{Bus, Device, DeviceInfo, Model, MqttMsg, Routes, Status, Switch8, TwoWay, OW};

fn ow(input: &str) -> OW {
    match parse(input.as_bytes()) {
        PResult::Done { msg, .. } => msg,
        other => panic!("no message: {:?}", other),
    }
}

const CSI: &str = "1_CSI|17:51:09\n1_DATE|29.12.20\n1_TIME|17:51:09\n1_ARTNO|11340\n\
1_SERNO|113402019V2.0-243\n1_FW|V1.20_29b\n1_HW|V2.0\n1_CONTNO|1\n";

const LIST: &str = "1_LST3|00:02:54\n\
LST|1_OWD1|EF000019096A4026|S_0|11150\n\
LST|1_OWD2|4300001982956429|S_0|DS2408|K8\n\
LST|1_OWD4|FFFFFFFFFFFFFFFF|S_10|none|             \n\
1_EVT|0:02:55\n";

const BIG_LIST: &str = "1_LST3|15:53:02\n\
LST|1_OWD1|9700001B47945E20|S_0|11322|HUB               \n\
LST|1_OWD2|5E00001B46F81429|S_0|11228|K1                \n\
LST|1_OWD3|5D00001BA2F4CC29|S_5|DS2408|                  \n\
LST|1_OWD4|FFFFFFFFFFFFFFFF|S_10|none|                  \n\
LST|1_OWD5|8D00001982810629|S_0|11221|K9                \n\
1_EVT|14:45:00\n";

#[test]
fn list_populates_the_bus() {
    let mut bus = Bus::default();
    let mut routes = Routes::new();
    bus.handle_1wire(ow(LIST), &mut routes, 0).unwrap();
    assert!(matches!(bus.devices[1], Model::TempHum(_)));
    assert!(matches!(bus.devices[2], Model::Unknown(_)));
    assert!(matches!(bus.devices[4], Model::Unknown(_)));
    assert_eq!(bus.devices[2].info().name, Some("K8".to_string()));
    assert_eq!(bus.devices[4].info().serno, "");
    assert_eq!(bus.devices.len(), 31);
    assert_eq!(bus.index("OWD1_1"), Some(1));
    assert_eq!(bus.index("OWD1_4"), Some(1));
    assert_eq!(bus.index("OWD1_5"), None);
    assert_eq!(bus.index("OWD2_1"), None);
}

#[test]
fn enumeration_is_idempotent() {
    let mut bus = Bus::new();
    let mut routes = Routes::new();
    bus.handle_1wire(ow(CSI), &mut routes, 0).unwrap();
    bus.handle_1wire(ow(BIG_LIST), &mut routes, 0).unwrap();
    // the devices have state of their own by now
    bus.handle_1wire(ow("1_OWD2_1|5\n"), &mut routes, 0).unwrap();
    bus.handle_1wire(ow("1_OWD_1|5\n"), &mut routes, 0).unwrap();
    let first = bus.handle_1wire(ow(BIG_LIST), &mut routes, 5).unwrap();
    let once = bus.clone();
    let subs = routes.subscriptions();
    let second = bus.handle_1wire(ow(BIG_LIST), &mut routes, 9).unwrap();
    assert_eq!(bus, once);
    assert_eq!(first, second);
    assert_eq!(routes.subscriptions(), subs);
    assert_eq!(bus.devices[1].info().status, Status::Online);
    match &bus.devices[2] {
        Model::Switch8(s) => assert_eq!(s.inputs, Some(5)),
        other => panic!("{:?}", other),
    }
}

#[test]
fn bus_scans_devices() {
    let mut bus = Bus::new();
    let mut routes = Routes::new();
    bus.handle_1wire(ow(CSI), &mut routes, 0).unwrap();
    let r = bus.handle_1wire(ow(BIG_LIST), &mut routes, 0).unwrap();
    let seen: Vec<(String, String, Status, String, &str)> = bus.devices[1..7]
        .iter()
        .map(|d| {
            let i = d.info();
            (
                i.busid.clone(),
                i.serno.clone(),
                i.status,
                i.name.clone().unwrap_or_default(),
                d.model(),
            )
        })
        .collect();
    let row = |a: &str, b: &str, c: Status, d: &str, e: &'static str| (a.to_string(), b.to_string(), c, d.to_string(), e);
    assert_eq!(
        seen,
        vec![
            row("OWD1", "9700001B47945E20", Status::Online, "HUB", "Hub"),
            row("OWD2", "5E00001B46F81429", Status::Online, "K1", "Switch8"),
            row("OWD3", "5D00001BA2F4CC29", Status::Offline, "", "Unknown"),
            row("", "", Status::Unconfigured, "", "Unknown"),
            row("OWD5", "8D00001982810629", Status::Online, "K9", "Dimmer"),
            row("", "", Status::Unconfigured, "", "Unknown"),
        ]
    );
    let mut addrs: Vec<String> = bus.busaddrs.iter().map(|a| a.0.clone()).collect();
    addrs.sort();
    assert_eq!(
        addrs,
        vec![
            "OWD1_1", "OWD1_2", "OWD1_3", "OWD1_4", "OWD2_1", "OWD2_3", "OWD5_1", "OWD5_3", "OWD5_4",
            "SYS1_1", "SYS2_1", "SYS3"
        ]
    );
    // subscriptions first, then the announcements; the init commands of the controller
    assert_eq!(r.ow, vec!["SET,SYS,OUTA,500", "GET,SYS,DIO"]);
    let subs: Vec<&MqttMsg> = r.mqtt.iter().filter(|m| matches!(m, MqttMsg::Sub { .. })).collect();
    assert_eq!(subs.len(), 6 + 8 + 2);
    assert_eq!(r.mqtt[0], MqttMsg::sub("ESERA/1/SYS/set/ch1"));
    assert_eq!(r.mqtt[6], MqttMsg::sub("ESERA/1/K1/set/ch1"));
    assert_eq!(r.mqtt[15], MqttMsg::sub("ESERA/1/K9/set/ch2"));
    assert_eq!(r.mqtt.len(), 16 + 18 + 4 + 24 + 6);
    assert!(r.mqtt[16..].iter().all(|m| matches!(m, MqttMsg::Pub { retain: true, .. })));
    assert_eq!(
        bus.to_text(),
        "Controller 1:\n\
         [1] SYS   Controller2   (11340) S/N 113402019V2.0-243 -\n\
         [1] OWD1  Hub           (11322) S/N 9700001B47945E20  HUB\n\
         [1] OWD2  Switch8       (11228) S/N 5E00001B46F81429  K1\n\
         [1] OWD5  Dimmer        (11221) S/N 8D00001982810629  K9\n"
    );
}

#[test]
fn controller_is_installed_by_its_system_information() {
    let mut bus = Bus::new();
    let mut routes = Routes::new();
    let r = bus.handle_1wire(ow(&CSI.replace("CONTNO|1", "CONTNO|2")), &mut routes, 0).unwrap();
    assert_eq!(bus.contno, 2);
    assert_eq!(r.mqtt.len(), 18);
    assert!(r.ow.is_empty());
    let mut i = bus.devices.iter();
    assert_eq!(i.next().unwrap().info().artno, "11340");
    assert!(i.all(|dev| dev.info().status == Status::Unconfigured));
    let mut addrs: Vec<String> = bus.busaddrs.iter().map(|a| a.0.clone()).collect();
    addrs.sort();
    assert_eq!(addrs, vec!["SYS1_1", "SYS2_1", "SYS3"]);
    assert_eq!(bus.devices[0].info().busid, "SYS");
    assert_eq!(bus.devices[0].info().contno, 2);
    assert_eq!(bus.devices[0].info().status, Status::Online);
}

#[test]
fn sensor_values_are_published_in_units() {
    let mut bus = Bus::new();
    let mut routes = Routes::new();
    bus.handle_1wire(
        ow("1_LST3|0:00:00\nLST|1_OWD1|A|S_0|none\nLST|1_OWD2|B|S_0|11150\nLST|1_OWD3|C|S_0|11151\n\n"),
        &mut routes,
        0,
    )
    .unwrap();
    assert_eq!(
        bus.handle_1wire(ow("1_OWD3_1|1976\n"), &mut routes, 0).unwrap(),
        TwoWay::from_mqtt(MqttMsg::new("ESERA/1/OWD3/temp", "19.76"))
    );
    assert_eq!(
        bus.handle_1wire(ow("1_OWD2_1|-97\n"), &mut routes, 0).unwrap(),
        TwoWay::from_mqtt(MqttMsg::new("ESERA/1/OWD2/temp", "-0.97"))
    );
    // nobody registered these
    assert_eq!(bus.handle_1wire(ow("1_OWD2_5|1\n"), &mut routes, 0).unwrap(), TwoWay::empty());
    assert_eq!(bus.handle_1wire(ow("1_OWD7_1|1\n"), &mut routes, 0).unwrap(), TwoWay::empty());
    assert_eq!(bus.handle_1wire(ow("1_KAL|1\n"), &mut routes, 0).unwrap(), TwoWay::empty());
    assert_eq!(bus.handle_1wire(ow("1_ERR|3\n"), &mut routes, 0).unwrap(), TwoWay::empty());
    assert_eq!(bus.handle_1wire(ow("1_DIO|1\n"), &mut routes, 0).unwrap(), TwoWay::empty());
}

#[test]
fn status_changes_are_published() {
    let mut bus = Bus::new();
    let mut routes = Routes::new();
    bus.handle_1wire(ow("1_LST3|0:00:00\nLST|1_OWD1|A|S_0|11150|Bad\n\n"), &mut routes, 0).unwrap();
    assert_eq!(
        bus.handle_1wire(ow("1_OWD_1|5\n"), &mut routes, 0).unwrap(),
        TwoWay::from_mqtt(MqttMsg::retain("ESERA/1/Bad/status", "offline"))
    );
    assert_eq!(bus.devices[1].info().status, Status::Offline);
    assert_eq!(bus.handle_1wire(ow("1_OWD_2|5\n"), &mut routes, 0).unwrap(), TwoWay::empty());
    assert_eq!(bus.handle_1wire(ow("1_OWD_31|5\n"), &mut routes, 0).unwrap(), TwoWay::empty());
    assert_eq!(bus.handle_1wire(ow("1_OWD_255|5\n"), &mut routes, 0).unwrap(), TwoWay::empty());
}

#[test]
fn a_new_serial_number_replaces_the_device() {
    let mut bus = Bus::new();
    let mut routes = Routes::new();
    bus.handle_1wire(ow("1_LST3|0:00:00\nLST|1_OWD1|A|S_0|11228\n\n"), &mut routes, 0).unwrap();
    bus.handle_1wire(ow("1_OWD1_1|3\n"), &mut routes, 0).unwrap();
    bus.handle_1wire(ow("1_LST3|0:00:00\nLST|1_OWD1|A|S_5|11228\n\n"), &mut routes, 0).unwrap();
    match &bus.devices[1] {
        Model::Switch8(s) => {
            assert_eq!(s.inputs, Some(3));
            assert_eq!(s.info.status, Status::Offline);
        }
        other => panic!("{:?}", other),
    }
    bus.handle_1wire(ow("1_LST3|0:00:00\nLST|1_OWD1|B|S_0|11228\n\n"), &mut routes, 0).unwrap();
    match &bus.devices[1] {
        Model::Switch8(s) => assert_eq!(s.inputs, None),
        other => panic!("{:?}", other),
    }
    bus.handle_1wire(ow("1_LST3|0:00:00\nLST|1_OWD1|C|S_0|11150\n\n"), &mut routes, 0).unwrap();
    assert!(matches!(bus.devices[1], Model::TempHum(_)));
    assert_eq!(bus.index("OWD1_3"), Some(1));
    assert_eq!(bus.index("OWD1_2"), Some(1));
    assert_eq!(routes.len(), 0);
}

#[test]
fn mqtt_command_reaches_the_switch() {
    let mut bridge = Bridge::new(2);
    bridge.on_controller(1, ow(CSI), 0).unwrap();
    bridge
        .on_controller(
            1,
            ow("1_LST3|0:00:00\nLST|1_OWD5|5E00001B46F81429|S_0|11228\n\n"),
            0,
        )
        .unwrap();
    assert_eq!(
        bridge.on_mqtt(&MqttMsg::new("ESERA/1/OWD5/set/ch2", "1")),
        Routed {
            mqtt: vec![],
            ow: vec![(1, "SET,OWD,OUT,5,1,1".to_string())],
            dropped: vec![]
        }
    );
    // nobody wants these
    let nothing = Routed { mqtt: vec![], ow: vec![], dropped: vec![] };
    assert_eq!(bridge.on_mqtt(&MqttMsg::new("ESERA/1/OWD5/set/ch9", "1")), nothing);
    assert_eq!(bridge.on_mqtt(&MqttMsg::sub("ESERA/1/OWD5/set/ch2")), nothing);
    // a payload that the device refuses is dropped
    let r = bridge.on_mqtt(&MqttMsg::new("ESERA/1/SYS/set/ana", "11"));
    assert!(r.mqtt.is_empty() && r.ow.is_empty());
    assert_eq!(r.dropped, vec![esera_mqtt::device::Error::Value("11".into())]);
}

#[test]
fn reconnect_renews_each_subscription_once() {
    let mut bridge = Bridge::new(1);
    bridge.routes.register("a/b".into(), Locator { bus: 0, slot: 1 }, 1);
    bridge.routes.register("c/#".into(), Locator { bus: 0, slot: 2 }, 5);
    bridge.routes.register("a/b".into(), Locator { bus: 0, slot: 3 }, 1);
    assert_eq!(
        bridge.on_mqtt(&MqttMsg::Reconnected),
        Routed {
            mqtt: vec![MqttMsg::sub("a/b"), MqttMsg::sub("c/#")],
            ow: vec![],
            dropped: vec![]
        }
    );
}

#[test]
fn commands_go_to_the_bus_of_their_controller() {
    let mut bridge = Bridge::new(3);
    for (i, contno) in [(0usize, 4u8), (2, 9)] {
        let mut bus = Bus::new();
        bus.contno = contno;
        bus.devices[3] = Model::Switch8(Switch8::new(
            DeviceInfo::new(contno, "OWD3", "S", "0", "11228", None).unwrap(),
        ));
        let mut routes = std::mem::take(&mut bridge.routes);
        bus.register_mqtt(&mut routes);
        bridge.routes = routes;
        bridge.buses[i] = bus;
    }
    assert_eq!(bridge.routes.len(), 16);
    assert_eq!(
        bridge.on_mqtt(&MqttMsg::new("ESERA/9/OWD3/set/ch1", "on")).ow,
        vec![(2, "SET,OWD,OUT,3,0,1".to_string())]
    );
    assert_eq!(
        bridge.on_mqtt(&MqttMsg::new("ESERA/4/OWD3/set/ch8", "0")).ow,
        vec![(0, "SET,OWD,OUT,3,7,0".to_string())]
    );
    // a wildcard reaches both
    bridge.routes.register("ESERA/+/OWD3/set/ch1".into(), Locator { bus: 4, slot: 3 }, 6);
    bridge.routes.register("ESERA/+/OWD3/set/ch1".into(), Locator { bus: 7, slot: 3 }, 6);
    bridge.routes.register("ESERA/+/OWD3/set/ch1".into(), Locator { bus: 9, slot: 40 }, 6);
    assert_eq!(
        bridge.on_mqtt(&MqttMsg::new("ESERA/9/OWD3/set/ch1", "on")).ow,
        vec![(2, "SET,OWD,OUT,3,0,1".to_string()), (0, "SET,OWD,OUT,3,6,1".to_string())]
    );
}

#[test]
fn endpoints() {
    assert_eq!(endpoint("esera", DEFAULT_PORT), "esera:5000");
    assert_eq!(endpoint("esera:4000", DEFAULT_PORT), "esera:4000");
    assert_eq!(endpoint("10.0.0.1", 65535), "10.0.0.1:65535");
    assert_eq!(endpoint("", 0), ":0");
}

#[test]
fn broker_packets() {
    assert_eq!(
        process_packet(Incoming::Publish { topic: "a/b".into(), payload: "grün".as_bytes().to_vec() }),
        Ok(Some(MqttMsg::new("a/b", "grün")))
    );
    assert_eq!(
        process_packet(Incoming::Publish { topic: "a/b".into(), payload: vec![b'a', 0xff] }),
        Err(MqttError::Utf8)
    );
    assert_eq!(process_packet(Incoming::Disconnect), Err(MqttError::Disconnected));
    assert_eq!(process_packet(Incoming::ConnAck { accepted: true }), Ok(Some(MqttMsg::Reconnected)));
    assert_eq!(process_packet(Incoming::ConnAck { accepted: false }), Ok(None));
    assert_eq!(process_packet(Incoming::Other), Ok(None));
    assert_eq!(birth("ESERA/1/status"), MqttMsg::retain("ESERA/1/status", "online"));
}

#[test]
fn retry_delays_grow_by_a_fifth_up_to_twenty_seconds() {
    assert_eq!(next_retry(FIRST_RETRY), 240);
    assert_eq!(next_retry(240), 288);
    assert_eq!(next_retry(7), 8);
    assert_eq!(next_retry(16_666), 19_999);
    assert_eq!(next_retry(16_667), 20_000);
    assert_eq!(next_retry(19_000), 20_000);
    assert_eq!(next_retry(20_000), 20_000);
    assert_eq!(next_retry(u64::MAX), 20_000);
    let mut d = FIRST_RETRY;
    for _ in 0..40 {
        d = next_retry(d);
    }
    assert_eq!(d, 20_000);
}

#[test]
fn connecting_takes_an_accepted_answer_within_three_packets() {
    assert_eq!(connect_step(0, ConnectEvent::Ack { accepted: true }), ConnectStep::Connected);
    assert_eq!(connect_step(2, ConnectEvent::Ack { accepted: true }), ConnectStep::Connected);
    assert_eq!(
        connect_step(0, ConnectEvent::Ack { accepted: false }),
        ConnectStep::Failed(MqttError::Connect)
    );
    assert_eq!(connect_step(1, ConnectEvent::Failure), ConnectStep::Failed(MqttError::Connect));
    assert_eq!(connect_step(0, ConnectEvent::Packet), ConnectStep::Wait);
    assert_eq!(connect_step(1, ConnectEvent::Packet), ConnectStep::Wait);
    assert_eq!(connect_step(2, ConnectEvent::Packet), ConnectStep::Failed(MqttError::Disconnected));
    assert_eq!(connect_step(255, ConnectEvent::Packet), ConnectStep::Failed(MqttError::Disconnected));
}

#[test]
fn credentials_split_at_the_first_colon() {
    assert_eq!(split_credentials("user:pw"), ("user".to_string(), "pw".to_string()));
    assert_eq!(split_credentials("user"), ("user".to_string(), "".to_string()));
    assert_eq!(split_credentials("user:"), ("user".to_string(), "".to_string()));
    assert_eq!(split_credentials(":pw"), ("".to_string(), "pw".to_string()));
    assert_eq!(split_credentials(""), ("".to_string(), "".to_string()));
    assert_eq!(split_credentials("ü:p:w"), ("ü".to_string(), "p:w".to_string()));
}

#[test]
fn a_lost_controller_loses_its_bus_and_its_routes() {
    let mut bridge = Bridge::new(2);
    bridge.on_controller(0, ow(CSI), 0).unwrap();
    bridge.on_controller(0, ow(BIG_LIST), 0).unwrap();
    bridge.on_controller(1, ow(&CSI.replace("CONTNO|1", "CONTNO|2")), 0).unwrap();
    bridge.on_controller(1, ow(&BIG_LIST.replace("1_", "2_")), 0).unwrap();
    assert_eq!(bridge.routes.len(), 32);
    bridge.on_closed(0);
    assert_eq!(bridge.buses[0], Bus::new());
    assert_eq!(bridge.buses[1].contno, 2);
    assert_eq!(bridge.routes.len(), 16);
    assert!(bridge.on_mqtt(&MqttMsg::new("ESERA/1/K1/set/ch1", "1")).ow.is_empty());
    assert_eq!(
        bridge.on_mqtt(&MqttMsg::new("ESERA/2/K1/set/ch1", "1")).ow,
        vec![(1, "SET,OWD,OUT,2,0,1".to_string())]
    );
}

#[test]
fn a_list_with_gaps_places_by_bus_id() {
    let mut bus = Bus::new();
    let mut routes = Routes::new();
    bus.handle_1wire(ow("1_LST3|0:00:00\nLST|1_OWD4|EF000019096A4026|S_0|11150|Bad\n\n"), &mut routes, 0)
        .unwrap();
    for slot in [1, 2, 3, 5, 30] {
        assert_eq!(bus.devices[slot], Model::default(), "slot {}", slot);
    }
    assert!(matches!(bus.devices[4], Model::TempHum(_)));
    assert_eq!(bus.devices[4].info().busid, "OWD4");
    assert_eq!(bus.devices[4].info().serno, "EF000019096A4026");
    assert_eq!(bus.index("OWD4_1"), Some(4));
    // a status change for OWD4 reaches the device that was enumerated as OWD4
    assert_eq!(
        bus.handle_1wire(ow("1_OWD_4|5\n"), &mut routes, 0).unwrap(),
        TwoWay::from_mqtt(MqttMsg::retain("ESERA/1/Bad/status", "offline"))
    );
    assert_eq!(bus.handle_1wire(ow("1_OWD_1|5\n"), &mut routes, 0).unwrap(), TwoWay::empty());
    // the same serial number in another order of the list: the device stays and takes
    // the enumerated status
    bus.handle_1wire(
        ow("1_LST3|0:00:00\nLST|1_OWD30|5E00001B46F81429|S_0|11228\n\
            LST|1_OWD4|EF000019096A4026|S_1|11150|Bad\nLST|1_OWD2|8D00001982810629|S_0|11221\n\n"),
        &mut routes,
        0,
    )
    .unwrap();
    assert!(matches!(bus.devices[4], Model::TempHum(_)));
    assert_eq!(bus.devices[4].info().status, Status::Err1);
    assert!(matches!(bus.devices[30], Model::Switch8(_)));
    assert!(matches!(bus.devices[2], Model::Dimmer(_)));
    assert_eq!(bus.devices[1], Model::default());
    assert_eq!(bus.devices[3], Model::default());
    assert_eq!(bus.index("OWD30_3"), Some(30));
    assert_eq!(bus.index("OWD2_4"), Some(2));
}

#[test]
fn a_switch_keeps_its_inputs_when_the_list_changes_its_order() {
    let mut bus = Bus::new();
    let mut routes = Routes::new();
    bus.handle_1wire(
        ow("1_LST3|0:00:00\nLST|1_OWD1|AA|S_0|11150\nLST|1_OWD2|BB|S_0|11228\n\n"),
        &mut routes,
        0,
    )
    .unwrap();
    bus.handle_1wire(ow("1_OWD2_1|3\n"), &mut routes, 0).unwrap();
    bus.handle_1wire(
        ow("1_LST3|0:00:00\nLST|1_OWD2|BB|S_5|11228\nLST|1_OWD1|AA|S_0|11150\n\n"),
        &mut routes,
        0,
    )
    .unwrap();
    match &bus.devices[2] {
        Model::Switch8(s) => {
            assert_eq!(s.inputs, Some(3));
            assert_eq!(s.info.status, Status::Offline);
        }
        other => panic!("{:?}", other),
    }
    assert!(matches!(bus.devices[1], Model::TempHum(_)));
}

#[test]
fn entries_with_other_bus_ids_are_skipped_and_the_first_of_two_counts() {
    let mut bus = Bus::new();
    let mut routes = Routes::new();
    bus.handle_1wire(ow(CSI), &mut routes, 0).unwrap();
    let controller = bus.devices[0].clone();
    bus.handle_1wire(
        ow("1_LST3|0:00:00\nLST|1_OWD0|AA|S_0|11150\nLST|1_OWD31|BB|S_0|11150\n\
            LST|1_OWD04|CC|S_0|11150\nLST|1_SYS|DD|S_0|11150\nLST|1_owd5|EE|S_0|11150\n\
            LST|1_OWD7|FF|S_0|11150\nLST|1_OWD7|GG|S_0|11228\n\n"),
        &mut routes,
        0,
    )
    .unwrap();
    assert_eq!(bus.devices[0], controller);
    for slot in (1..=30).filter(|s| *s != 7) {
        assert_eq!(bus.devices[slot], Model::default(), "slot {}", slot);
    }
    assert!(matches!(bus.devices[7], Model::TempHum(_)));
    assert_eq!(bus.devices[7].info().serno, "FF");
}

#[test]
fn only_the_first_thirty_entries_count() {
    let mut list = String::from("1_LST3|0:00:00\n");
    for _ in 0..29 {
        list.push_str("LST|1_OWD9|X|S_0|none\n");
    }
    list.push_str("LST|1_OWD3|AA|S_0|11150\n");
    let mut bus = Bus::new();
    let mut routes = Routes::new();
    bus.handle_1wire(ow(&list), &mut routes, 0).unwrap();
    assert!(matches!(bus.devices[3], Model::TempHum(_)));
    let mut list = String::from("1_LST3|0:00:00\n");
    for _ in 0..30 {
        list.push_str("LST|1_OWD9|X|S_0|none\n");
    }
    list.push_str("LST|1_OWD3|AA|S_0|11150\n");
    let mut bus = Bus::new();
    // the list ends after thirty entries; what follows is no message of its own
    match parse(list.as_bytes()) {
        PResult::Done { msg, .. } => {
            bus.handle_1wire(msg, &mut routes, 0).unwrap();
        }
        other => panic!("{:?}", other),
    }
    assert_eq!(bus.devices[3], Model::default());
}
