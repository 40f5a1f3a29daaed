use esera_mqtt::routing::Locator;
use esera_mqtt::{MqttMsg, Routes};

fn at(bus: usize, slot: usize) -> Locator {
    Locator { bus, slot }
}

#[test]
fn route_replay() {
    let mut routes = Routes::new();
    let topics = ["a/1", "a/2", "a/1", "b/#", "a/2", "a/1", "c/+/d", "b/#"];
    let mut announced = Vec::new();
    for (i, t) in topics.iter().enumerate() {
        if let Some(m) = routes.register(t.to_string(), at(0, i), i as i32) {
            announced.push(m);
        }
    }
    let expected = vec![
        MqttMsg::sub("a/1"),
        MqttMsg::sub("a/2"),
        MqttMsg::sub("b/#"),
        MqttMsg::sub("c/+/d"),
    ];
    assert_eq!(announced, expected);
    assert_eq!(routes.subscriptions(), expected);
    assert_eq!(routes.len(), 4);
}

#[test]
fn lookup_matches_wildcards() {
    let mut routes = Routes::default();
    assert_eq!(routes.register("s/+/temp".into(), at(1, 2), 7), Some(MqttMsg::sub("s/+/temp")));
    assert_eq!(routes.register("s/a/temp".into(), at(1, 3), 8), Some(MqttMsg::sub("s/a/temp")));
    assert_eq!(routes.register("s/+/temp".into(), at(2, 2), 9), None);
    assert_eq!(routes.register("s/#".into(), at(3, 0), -1), Some(MqttMsg::sub("s/#")));
    assert_eq!(
        routes.lookup("s/a/temp"),
        vec![(at(1, 2), 7), (at(2, 2), 9), (at(1, 3), 8), (at(3, 0), -1)]
    );
    assert_eq!(routes.lookup("s/b/temp"), vec![(at(1, 2), 7), (at(2, 2), 9), (at(3, 0), -1)]);
    assert_eq!(routes.lookup("s/b/hum"), vec![(at(3, 0), -1)]);
    assert_eq!(routes.lookup("t/b/hum"), vec![]);
    assert_eq!(routes.lookup(""), vec![]);
}

#[test]
fn clearing_a_bus_keeps_the_others() {
    let mut routes = Routes::new();
    routes.register("a".into(), at(1, 1), 1);
    routes.register("b".into(), at(2, 1), 2);
    routes.register("a".into(), at(2, 2), 3);
    routes.register("c".into(), at(1, 3), 4);
    routes.register("b".into(), at(2, 5), 6);
    routes.clear_bus(1);
    assert_eq!(routes.subscriptions(), vec![MqttMsg::sub("a"), MqttMsg::sub("b")]);
    assert_eq!(routes.lookup("a"), vec![(at(2, 2), 3)]);
    assert_eq!(routes.lookup("b"), vec![(at(2, 1), 2), (at(2, 5), 6)]);
    assert_eq!(routes.lookup("c"), vec![]);
    // the pattern is new again
    assert_eq!(routes.register("c".into(), at(1, 3), 4), Some(MqttMsg::sub("c")));
    routes.clear();
    assert_eq!(routes.len(), 0);
    assert_eq!(routes.subscriptions(), vec![]);
}
