use esera_mqtt::climate::{Climate, Conf};
use esera_mqtt::device::{announce_device, disc_topic};
use esera_mqtt::parser::{parse, PResult};
use esera_mqtt::{
    AirQuality, Controller2, Device, DeviceInfo, Dimmer, Hub, Model, MqttMsg, Shutter, Switch8,
    TempHum,
};
use serde_json::Value;

fn doc(m: &MqttMsg) -> Value {
    match m {
        MqttMsg::Pub { payload, retain, .. } => {
            assert!(retain, "an announcement is retained");
            serde_json::from_str(payload).unwrap()
        }
        other => panic!("{:?}", other),
    }
}

fn info(busid: &str, serno: &str, artno: &str, name: Option<&str>) -> DeviceInfo {
    DeviceInfo::new(1, busid, serno, "online", artno, name).unwrap()
}

#[test]
fn sensor_entity_document_is_exact() {
    let uut = TempHum::new(info("OWD2", "EF00", "11150", None));
    let ann = uut.announce();
    assert_eq!(ann.len(), 4);
    assert_eq!(
        ann[0],
        MqttMsg::retain(
            "homeassistant/sensor/1/EF00_temp/config",
            "{\"availability_topic\":\"ESERA/1/OWD2/status\",\
             \"device\":{\"identifiers\":[\"EF00\"],\"manufacturer\":\"ESERA\",\
             \"model\":\"TempHum 11150\",\"name\":\"1-Wire bus 1/OWD2\",\"via_device\":\"1/SYS\"},\
             \"device_class\":\"temperature\",\"expire_after\":600,\"name\":\"OWD2 Temperature\",\
             \"qos\":1,\"state_topic\":\"ESERA/1/OWD2/temp\",\"unique_id\":\"EF00_temp\",\
             \"unit_of_measurement\":\"°C\"}"
        )
    );
    assert_eq!(ann[3].topic(), "homeassistant/sensor/1/EF00_dew/config");
    assert_eq!(doc(&ann[2])["unit_of_measurement"], "%");
}

#[test]
fn strings_are_escaped_by_the_json_printer() {
    let uut = TempHum::new(info("OWD2", "EF00", "11150", Some("a\"b\\c")));
    let ann = uut.announce();
    match &ann[0] {
        MqttMsg::Pub { payload, .. } => {
            assert!(payload.contains("\"name\":\"a\\\"b\\\\c Temperature\""), "{}", payload)
        }
        other => panic!("{:?}", other),
    }
    assert_eq!(doc(&ann[0])["device"]["identifiers"][1], "1/a\"b\\c");
    match &ann[0] {
        MqttMsg::Pub { payload, .. } => assert!(
            payload.contains("\"identifiers\":[\"EF00\",\"1/a\\\"b\\\\c\"],"),
            "{}",
            payload
        ),
        other => panic!("{:?}", other),
    }
}

#[test]
fn device_description() {
    let dev = announce_device(&info("OWD2", "EF00", "11150", Some("K8")), "Switch8");
    assert_eq!(dev.identifiers, vec!["EF00", "1/K8"]);
    assert_eq!(dev.model, "Switch8 11150");
    assert_eq!(dev.name, "1-Wire bus 1/K8");
    assert_eq!(dev.manufacturer, "ESERA");
    assert_eq!(dev.sw_version, None);
    assert_eq!(dev.via_device, Some("1/SYS".to_string()));
    let sys = announce_device(&info("SYS", "S", "11340", None), "Controller2");
    assert_eq!(sys.identifiers, vec!["S"]);
    assert_eq!(sys.via_device, None);
    assert_eq!(sys.name, "1-Wire bus 1/SYS");
}

#[test]
fn discovery_topic_drops_odd_characters() {
    let i = info("SYS", "113402019V2.0-243 x/yä_z", "11340", None);
    assert_eq!(
        disc_topic("switch", &i, "ch1"),
        "homeassistant/switch/1/113402019V20-243xy_z_ch1/config"
    );
}

#[test]
fn airquality_and_hub_announcements() {
    let ann = AirQuality::new(info("OWD3", "AA", "11151", Some("Luft"))).announce();
    assert_eq!(ann.len(), 5);
    let d = doc(&ann[4]);
    assert_eq!(d["name"], "Luft CO2");
    assert_eq!(d["device_class"], "pressure");
    assert_eq!(d["unit_of_measurement"], "ppm");
    assert_eq!(d["state_topic"], "ESERA/1/Luft/co2");
    assert_eq!(d["expire_after"], 600);
    assert_eq!(d["qos"], 1);
    let ann = Hub::new(info("OWD1", "BB", "11322", None)).announce();
    assert_eq!(ann.len(), 4);
    assert_eq!(ann[0].topic(), "homeassistant/sensor/1/BB_cur_12/config");
    assert_eq!(ann[3].topic(), "homeassistant/sensor/1/BB_vcc_5/config");
    let d = doc(&ann[0]);
    assert_eq!(d["name"], "Hub.1 current 12V");
    assert_eq!(d["unit_of_measurement"], "mA");
    assert_eq!(d["expire_after"], 300);
    assert_eq!(d.get("qos"), None);
    assert_eq!(doc(&ann[3])["name"], "Hub.1 voltage 5V");
    assert_eq!(doc(&ann[3])["unit_of_measurement"], "V");
}

#[test]
fn switch8_announcements() {
    let ann = Switch8::new(info("OWD5", "CC", "11228", Some("K1"))).announce();
    assert_eq!(ann.len(), 24);
    assert_eq!(ann[0].topic(), "homeassistant/device_automation/1/CC_button_1_0/config");
    assert_eq!(ann[1].topic(), "homeassistant/device_automation/1/CC_button_1_1/config");
    assert_eq!(ann[2].topic(), "homeassistant/switch/1/CC_ch1/config");
    assert_eq!(ann[23].topic(), "homeassistant/switch/1/CC_ch8/config");
    let released = doc(&ann[0]);
    assert_eq!(released["automation_type"], "trigger");
    assert_eq!(released["type"], "button_short_release");
    assert_eq!(released["subtype"], "button_1");
    assert_eq!(released["payload"], "0");
    assert_eq!(released["topic"], "ESERA/1/K1/button/ch1");
    assert_eq!(doc(&ann[1])["type"], "button_short_press");
    let switch = doc(&ann[5]);
    assert_eq!(switch["name"], "Switch 1/K1.2");
    assert_eq!(switch["command_topic"], "ESERA/1/K1/set/ch2");
    assert_eq!(switch["state_topic"], "ESERA/1/K1/out/ch2");
    assert_eq!(switch["unique_id"], "CC_ch2");
    assert_eq!(switch["payload_on"], "1");
    assert_eq!(switch["payload_off"], "0");
    assert_eq!(switch["availability_topic"], "ESERA/1/K1/status");
}

#[test]
fn dimmer_announcements() {
    let ann = Dimmer::new(info("OWD6", "DD", "11221", None)).announce();
    assert_eq!(ann.len(), 6);
    let light = doc(&ann[5]);
    assert_eq!(ann[5].topic(), "homeassistant/light/1/DD_ch2/config");
    assert_eq!(light["brightness_scale"], 31);
    assert_eq!(light["name"], "Dimmer 1/OWD6.2");
    assert_eq!(light["brightness_command_topic"], "ESERA/1/OWD6/set/ch2");
    assert_eq!(light["brightness_state_topic"], "ESERA/1/OWD6/out/ch2");
    assert_eq!(light["on_command_type"], "brightness");
    assert_eq!(
        light["state_value_template"],
        "{% if value != '0' %}1{% else %}0{% endif %}"
    );
}

#[test]
fn controller2_announcements_follow_the_io_mode() {
    let mut uut = Model::Controller2(Controller2::new(info("SYS", "S1", "11340", None)));
    let csi = match parse(
        "1_CSI|1\n1_DATE|1\n1_TIME|1\n1_ARTNO|11340\n1_SERNO|S1\n1_FW|V1.20\n1_HW|V2\n1_CONTNO|1\n"
            .as_bytes(),
    ) {
        PResult::Done { msg, .. } => msg,
        other => panic!("{:?}", other),
    };
    let first = uut.handle_1wire(csi, 0).unwrap();
    assert_eq!(first.mqtt.len(), 4 * 3 + 5 + 1);
    assert_eq!(first.mqtt, uut.announce());
    let d = doc(&first.mqtt[0]);
    assert_eq!(d["type"], "button_long_release");
    assert_eq!(d["device"]["sw_version"], "V1.20");
    assert_eq!(d["device"].get("via_device"), None);
    let input = doc(&first.mqtt[2]);
    assert_eq!(first.mqtt[2].topic(), "homeassistant/binary_sensor/1/S1_button_1/config");
    assert_eq!(input["name"], "Controller.1 in 1");
    assert_eq!(input["unique_id"], "S1_in1");
    assert_eq!(input["state_topic"], "ESERA/1/SYS/in/ch1");
    assert_eq!(input.get("expire_after"), None);
    let out = doc(&first.mqtt[12]);
    assert_eq!(out["name"], "Controller.1 out 1");
    let ana = &first.mqtt[17];
    assert_eq!(ana.topic(), "homeassistant/light/1/S1_ana/config");
    assert!(ana.payload().contains("\"brightness_scale\":10.0"), "{}", ana.payload());
    assert_eq!(doc(ana)["command_topic"], "ESERA/1/SYS/set/ana");
    assert_eq!(doc(ana)["name"], "Controller.1 analog out");
    let dio = match parse("1_DIO|3\n".as_bytes()) {
        PResult::Done { msg, .. } => msg,
        other => panic!("{:?}", other),
    };
    uut.handle_1wire(dio, 0).unwrap();
    assert_eq!(doc(&uut.announce()[1])["type"], "button_short_press");
}

#[test]
fn shutter_announcements() {
    let ann = Shutter::new(info("OWD7", "E-1", "11231", Some("West"))).announce();
    assert_eq!(ann.len(), 5);
    assert_eq!(ann[4].topic(), "homeassistant/cover/1/E-1/config");
    let cover = doc(&ann[4]);
    assert_eq!(cover["name"], "Shutter 1/West");
    assert_eq!(cover["optimistic"], false);
    assert_eq!(cover["command_topic"], "ESERA/1/West/set");
    assert_eq!(cover["position_topic"], "ESERA/1/West/position");
    assert_eq!(cover["state_topic"], "ESERA/1/West/state");
    assert_eq!(cover["unique_id"], "E-1");
    assert_eq!(cover["state_stopped"], "stopped");
    assert_eq!(doc(&ann[3])["subtype"], "button_2");
}

#[test]
fn climate_announcement() {
    let conf = Conf {
        heat_state: "h/state".into(),
        heat_cmnd: "h/cmnd".into(),
        aux_state: Some("a/state".into()),
        aux_cmnd: None,
        temp: "t".into(),
        dew: None,
        offset: 0,
    };
    let ann = Climate::new("wz", conf).announce();
    assert_eq!(ann.topic(), "homeassistant/climate/virt/wz/config");
    assert!(ann.payload().contains("\"temp_step\":0.5"), "{}", ann.payload());
    assert!(ann.payload().contains("\"initial\":21.0"), "{}", ann.payload());
    let d = doc(&ann);
    assert_eq!(d["modes"][0], "off");
    assert_eq!(d["modes"][1], "heat");
    assert_eq!(d["modes"].as_array().unwrap().len(), 2);
    assert_eq!(d["aux_state_topic"], "a/state");
    assert_eq!(d.get("aux_command_topic"), None);
    assert_eq!(d["availability_topic"], "homeassistant/climate/virt/status");
    assert_eq!(d["mode_command_topic"], "homeassistant/climate/virt/wz/mode/set");
    assert_eq!(d["unique_id"], "esera-mqtt::climate::virtual::wz");
    assert_eq!(d["device"]["model"], "Virtual HVAC");
    assert_eq!(d["device"]["identifiers"][1], "esera-mqtt 0.4.0");
    assert_eq!(d["name"], "wz");
}
