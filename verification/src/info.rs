//! What is known about the device in one slot of a bus.
use crate::message::{opt_text, status_of, Status};
use crate::mqtt::{publication, MqttMsg};
use crate::text::{chars_of, decimal, has_prefix, push_decimal, starts_with, trim, trimmed};
use vstd::prelude::*;
use vstd::string::*;

verus! {

/// Why a value could not be read.
#[derive(Debug, Clone, Copy, PartialEq, Eq, Structural)]
pub enum Error {
    /// A status code or name that does not exist.
    Status,
}

#[derive(Debug, PartialEq)]
pub struct DeviceInfo {
    pub contno: u8,
    pub busid: String,
    pub serno: String,
    pub status: Status,
    pub artno: String,
    pub name: Option<String>,
}

/// The content of a [`DeviceInfo`].
pub struct DeviceInfoView {
    pub contno: u8,
    pub busid: Seq<char>,
    pub serno: Seq<char>,
    pub status: Status,
    pub artno: Seq<char>,
    pub name: Option<Seq<char>>,
}

impl DeviceInfoView {
    /// The human-readable name, or the bus id where there is none.
    pub open spec fn name(self) -> Seq<char> {
        match self.name {
            Some(n) => n,
            None => self.busid,
        }
    }

    /// The MQTT topic of an item of this device: `ESERA/<contno>/<name>/<item>`.
    pub open spec fn topic(self, item: Seq<char>) -> Seq<char> {
        "ESERA/"@ + decimal(self.contno as nat) + "/"@ + self.name() + "/"@ + item
    }

    /// The topic of channel `ch` under `inout`: `.../<inout>/ch<ch>`.
    pub open spec fn channel_topic(self, inout: Seq<char>, ch: nat) -> Seq<char> {
        self.topic(inout + "/ch"@ + decimal(ch))
    }

    /// The topic on which the device's status is published.
    pub open spec fn status_topic(self) -> Seq<char> {
        self.topic("status"@)
    }

    /// The bus address of a sub-address: `<busid>_<sub>`.
    pub open spec fn busaddr(self, sub: u8) -> Seq<char> {
        self.busid + "_"@ + decimal(sub as nat)
    }

    /// The bare device number: the bus id without a leading `OWD`.
    pub open spec fn devno(self) -> Seq<char> {
        if has_prefix(self.busid, "OWD"@) {
            self.busid.skip(3)
        } else {
            self.busid
        }
    }

    /// The info of an empty slot.
    pub open spec fn empty() -> DeviceInfoView {
        DeviceInfoView {
            contno: 0,
            busid: Seq::empty(),
            serno: Seq::empty(),
            status: Status::Unconfigured,
            artno: Seq::empty(),
            name: None,
        }
    }
}

/// The name that a device gets from the text after its article number: the
/// text without surrounding white space, or none where nothing is left.
pub open spec fn name_of(text: Option<Seq<char>>) -> Option<Seq<char>> {
    match text {
        Some(t) => if trimmed(t).len() > 0 {
            Some(trimmed(t))
        } else {
            None
        },
        None => None,
    }
}

impl View for DeviceInfo {
    type V = DeviceInfoView;

    open spec fn view(&self) -> DeviceInfoView {
        DeviceInfoView {
            contno: self.contno,
            busid: self.busid@,
            serno: self.serno@,
            status: self.status,
            artno: self.artno@,
            name: opt_text(self.name),
        }
    }
}

impl DeepView for DeviceInfo {
    type V = DeviceInfoView;

    open spec fn deep_view(&self) -> DeviceInfoView {
        self@
    }
}

impl Clone for DeviceInfo {
    fn clone(&self) -> (r: Self)
        ensures
            r == *self,
    {
        DeviceInfo {
            contno: self.contno,
            busid: self.busid.clone(),
            serno: self.serno.clone(),
            status: self.status,
            artno: self.artno.clone(),
            name: match &self.name {
                Some(n) => Some(n.clone()),
                None => None,
            },
        }
    }
}

impl Default for DeviceInfo {
    fn default() -> (r: Self)
        ensures
            r@ == DeviceInfoView::empty(),
    {
        DeviceInfo {
            contno: 0,
            busid: String::new(),
            serno: String::new(),
            status: Status::Unconfigured,
            artno: String::new(),
            name: None,
        }
    }
}

/// The device name read from the text after the article number.
pub fn read_name(text: Option<&str>) -> (r: Option<String>)
    ensures
        opt_text(r) == name_of(
            match text {
                Some(t) => Some(t@),
                None => None,
            },
        ),
{
    match text {
        Some(t) => {
            let n = trim(t);
            if n.as_str().unicode_len() > 0 {
                Some(n)
            } else {
                None
            }
        },
        None => None,
    }
}

impl DeviceInfo {
    /// Builds the info of a device. Fails where `status` is neither a status
    /// code nor a status name.
    pub fn new(
        contno: u8,
        busid: &str,
        serno: &str,
        status: &str,
        artno: &str,
        name: Option<&str>,
    ) -> (r: Result<Self, Error>)
        ensures
            status_of(status@) is None ==> r == Err::<Self, Error>(Error::Status),
            status_of(status@) matches Some(st) ==> r is Ok && r->Ok_0@ == (DeviceInfoView {
                contno,
                busid: busid@,
                serno: serno@,
                status: st,
                artno: artno@,
                name: name_of(
                    match name {
                        Some(t) => Some(t@),
                        None => None,
                    },
                ),
            }),
    {
        match Status::from_text(status) {
            Some(st) => Ok(
                DeviceInfo {
                    contno,
                    busid: String::from_str(busid),
                    serno: String::from_str(serno),
                    status: st,
                    artno: String::from_str(artno),
                    name: read_name(name),
                },
            ),
            None => Err(Error::Status),
        }
    }

    /// The human-readable name, or the bus id where there is none.
    pub fn name(&self) -> (n: &str)
        ensures
            n@ == self@.name(),
    {
        match &self.name {
            Some(n) => n.as_str(),
            None => self.busid.as_str(),
        }
    }

    /// The MQTT topic of an item of this device.
    pub fn topic(&self, item: &str) -> (t: String)
        ensures
            t@ == self@.topic(item@),
    {
        let mut t = String::from_str("ESERA/");
        push_decimal(&mut t, self.contno as u64);
        t.append("/");
        t.append(self.name());
        t.append("/");
        t.append(item);
        t
    }

    /// The topic of channel `ch` under `inout`.
    pub fn channel_topic(&self, inout: &str, ch: u8) -> (t: String)
        ensures
            t@ == self@.channel_topic(inout@, ch as nat),
    {
        let mut item = String::from_str(inout);
        item.append("/ch");
        push_decimal(&mut item, ch as u64);
        self.topic(item.as_str())
    }

    /// The topic on which the device's status is published.
    pub fn status_topic(&self) -> (t: String)
        ensures
            t@ == self@.status_topic(),
    {
        self.topic("status")
    }

    /// A publication of `value` under an item of this device.
    pub fn mqtt_msg(&self, topic: &str, value: &str) -> (m: MqttMsg)
        ensures
            m@ == publication(self@.topic(topic@), value@),
    {
        let t = self.topic(topic);
        MqttMsg::new(t.as_str(), value)
    }

    /// The bus addresses of the given sub-addresses.
    pub fn mkbusaddrs(&self, addrs: &[u8]) -> (r: Vec<String>)
        ensures
            r.deep_view() == addrs@.map_values(|sub: u8| self@.busaddr(sub)),
    {
        let mut r: Vec<String> = Vec::new();
        let mut i: usize = 0;
        while i < addrs.len()
            invariant
                i <= addrs@.len(),
                r.deep_view() == addrs@.take(i as int).map_values(|sub: u8| self@.busaddr(sub)),
            decreases addrs@.len() - i,
        {
            let mut a = self.busid.clone();
            a.append("_");
            push_decimal(&mut a, addrs[i] as u64);
            let ghost before = r.deep_view();
            r.push(a);
            assert(r.deep_view() =~= before.push(self@.busaddr(addrs@[i as int])));
            assert(addrs@.take(i + 1).map_values(|sub: u8| self@.busaddr(sub)) =~= addrs@.take(
                i as int,
            ).map_values(|sub: u8| self@.busaddr(sub)).push(self@.busaddr(addrs@[i as int])));
            i += 1;
        }
        assert(addrs@.take(addrs@.len() as int) =~= addrs@);
        r
    }

    /// The bare device number: `3` for `OWD3`. Another bus id comes back as it
    /// is (`SYS`).
    pub fn devno(&self) -> (r: &str)
        ensures
            r@ == self@.devno(),
    {
        let v = chars_of(self.busid.as_str());
        let p = chars_of("OWD");
        proof {
            reveal_strlit("OWD");
        }
        if starts_with(&v, &p) {
            self.busid.as_str().substring_char(3, v.len())
        } else {
            self.busid.as_str()
        }
    }
}

} // verus!
