//! Bridge logic between ESERA 1-Wire controllers and an MQTT broker.
//!
//! The controller speaks a line protocol that [`parser`] reads into typed
//! messages. A [`Bus`] holds the devices of one controller and turns controller
//! messages into MQTT publications; [`Routes`] leads MQTT commands back to the
//! device that subscribed to them. Every handler answers with a [`TwoWay`]: the
//! MQTT messages to publish and the controller commands to send.
pub mod bridge;
pub mod bus;
pub mod climate;
pub mod controller;
pub mod device;
pub mod info;
pub mod json;
pub mod message;
pub mod mqtt;
pub mod parser;
pub mod routing;
pub mod text;
pub mod twoway;

pub use message::{Devstatus, Msg, MsgKind, OWDStatus, Status, CSI, DIO, OW};
pub use bridge::Bridge;
pub use bus::Bus;
pub use controller::{Handshake, Session};
pub use device::{
    bool2str, str2bool, AirQuality, AnnounceDevice, BinarySensor, Controller2, Device, Dimmer, Hub,
    Model, Shutter, Switch8, TempHum, Unknown,
};
pub use info::DeviceInfo;
pub use mqtt::MqttMsg;
pub use parser::{parse, PResult};
pub use routing::{Locator, Routes, Token};
pub use twoway::TwoWay;
pub use text::{centi_text, str_eq};
