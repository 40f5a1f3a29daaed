use esera_mqtt::{MqttMsg, TwoWay};

#[test]
fn add_twoway() {
    let t1 = TwoWay::new(vec![MqttMsg::new("topic", "msg1")], vec!["CMD1".into()]);
    let t2 = TwoWay::new(vec![MqttMsg::new("topic", "msg2")], vec!["CMD2".into()]);
    assert_eq!(
        t1 + t2,
        TwoWay::new(
            vec![MqttMsg::new("topic", "msg1"), MqttMsg::new("topic", "msg2")],
            vec!["CMD1".into(), "CMD2".into()]
        )
    );
}

#[test]
fn append_keeps_order() {
    let mut t = TwoWay::from_1wire("A");
    t.append(TwoWay::from_mqtt(MqttMsg::retain("t", "p")));
    t.append(TwoWay::from_1wire("B"));
    assert_eq!(
        t,
        TwoWay::new(vec![MqttMsg::retain("t", "p")], vec!["A".into(), "B".into()])
    );
    assert_eq!(TwoWay::empty(), TwoWay::default());
    assert_eq!(
        TwoWay::mqtt(vec![MqttMsg::sub("x")]),
        TwoWay::new(vec![MqttMsg::sub("x")], vec![])
    );
}

#[test]
fn message_accessors() {
    let m = MqttMsg::new("a/b", "1");
    assert_eq!(m.topic(), "a/b");
    assert_eq!(m.payload(), "1");
    assert_eq!(m.to_text(), "a/b 1");
    assert_eq!(MqttMsg::retain("a/b", "1").to_text(), "a/b 1 (retain)");
    assert_eq!(MqttMsg::sub("a/#").topic(), "a/#");
    assert_eq!(MqttMsg::sub("a/#").to_text(), "Subscribe a/#");
    assert_eq!(MqttMsg::Reconnected.to_text(), "Reconnected to broker");
}

#[test]
fn message_matches_patterns() {
    let m = MqttMsg::new("ESERA/1/OWD5/set/ch2", "1");
    assert!(m.matches("ESERA/1/OWD5/set/ch2"));
    assert!(m.matches("ESERA/+/OWD5/set/ch2"));
    assert!(m.matches("ESERA/1/#"));
    assert!(!m.matches("ESERA/2/#"));
    assert!(!m.matches("ESERA/1/OWD5/set"));
    assert!(!MqttMsg::sub("ESERA/1/#").matches("ESERA/1/#"));
    assert!(!MqttMsg::Reconnected.matches("#"));
    // a topic that begins with a character of several bytes is matched like any other
    assert!(MqttMsg::new("äb/c", "1").matches("äb/c"));
    assert!(MqttMsg::new("äb/c", "1").matches("+/c"));
    assert!(MqttMsg::new("äb/c", "1").matches("äb/+"));
    assert!(MqttMsg::new("äb/c", "1").matches("#"));
    assert!(MqttMsg::new("äb/c", "1").matches("äb/#"));
    assert!(!MqttMsg::new("äb/c", "1").matches("äb"));
    assert!(!MqttMsg::new("äb/c", "1").matches("x/c"));
    assert!(!MqttMsg::new("äb/c", "1").matches("+"));
    assert!(!MqttMsg::new("ä", "1").matches(""));
    assert!(MqttMsg::new("ä", "1").matches("+"));
    assert!(MqttMsg::new("", "1").matches("#"));
}
