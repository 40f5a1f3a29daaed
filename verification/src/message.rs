//! The typed messages of the controller protocol.
use crate::info::{DeviceInfo, DeviceInfoView};
use crate::text::{chars_of, last_segment, last_segment_start, read_digits, str_eq, all_digits, digits_value};
use vstd::prelude::*;

verus! {

/// What a controller reports about a device slot.
#[derive(Debug, Clone, Copy, PartialEq, Eq, Structural)]
pub enum Status {
    Online,
    Err1,
    Err2,
    Err3,
    Offline,
    Unconfigured,
}

/// The status that a wire code (`0`, `1`, `2`, `3`, `5`, `10`) or a status
/// name (`online`, `error_1`, ...) stands for.
pub open spec fn status_of(text: Seq<char>) -> Option<Status> {
    if text == "0"@ || text == "online"@ {
        Some(Status::Online)
    } else if text == "1"@ || text == "error_1"@ {
        Some(Status::Err1)
    } else if text == "2"@ || text == "error_2"@ {
        Some(Status::Err2)
    } else if text == "3"@ || text == "error_3"@ {
        Some(Status::Err3)
    } else if text == "5"@ || text == "offline"@ {
        Some(Status::Offline)
    } else if text == "10"@ || text == "unconfigured"@ {
        Some(Status::Unconfigured)
    } else {
        None
    }
}

impl Status {
    /// The lowercase name under which the status is published.
    pub open spec fn name(self) -> Seq<char> {
        match self {
            Status::Online => "online"@,
            Status::Err1 => "error_1"@,
            Status::Err2 => "error_2"@,
            Status::Err3 => "error_3"@,
            Status::Offline => "offline"@,
            Status::Unconfigured => "unconfigured"@,
        }
    }

    /// The lowercase name under which the status is published.
    pub fn as_str(&self) -> (s: &'static str)
        ensures
            s@ == self.name(),
    {
        match self {
            Status::Online => "online",
            Status::Err1 => "error_1",
            Status::Err2 => "error_2",
            Status::Err3 => "error_3",
            Status::Offline => "offline",
            Status::Unconfigured => "unconfigured",
        }
    }

    /// Reads a wire code or a status name.
    pub fn from_text(text: &str) -> (r: Option<Status>)
        ensures
            r == status_of(text@),
    {
        if str_eq(text, "0") || str_eq(text, "online") {
            Some(Status::Online)
        } else if str_eq(text, "1") || str_eq(text, "error_1") {
            Some(Status::Err1)
        } else if str_eq(text, "2") || str_eq(text, "error_2") {
            Some(Status::Err2)
        } else if str_eq(text, "3") || str_eq(text, "error_3") {
            Some(Status::Err3)
        } else if str_eq(text, "5") || str_eq(text, "offline") {
            Some(Status::Offline)
        } else if str_eq(text, "10") || str_eq(text, "unconfigured") {
            Some(Status::Unconfigured)
        } else {
            None
        }
    }
}

impl Default for Status {
    fn default() -> (r: Self)
        ensures
            r == Status::Unconfigured,
    {
        Status::Unconfigured
    }
}

/// How the controller's digital inputs drive its outputs.
#[derive(Debug, Clone, Copy, PartialEq, Eq, Structural)]
pub enum DIO {
    IndependentLevel,
    IndependentEdge,
    LinkedLevel,
    LinkedEdge,
}

/// The mode that a wire code (`0` to `3`) or a mode name stands for.
pub open spec fn dio_of(text: Seq<char>) -> Option<DIO> {
    if text == "0"@ || text == "Independent+Level"@ {
        Some(DIO::IndependentLevel)
    } else if text == "1"@ || text == "Independent+Edge"@ {
        Some(DIO::IndependentEdge)
    } else if text == "2"@ || text == "Linked+Level"@ {
        Some(DIO::LinkedLevel)
    } else if text == "3"@ || text == "Linked+Edge"@ {
        Some(DIO::LinkedEdge)
    } else {
        None
    }
}

impl DIO {
    /// The name under which the mode is published.
    pub open spec fn name(self) -> Seq<char> {
        match self {
            DIO::IndependentLevel => "Independent+Level"@,
            DIO::IndependentEdge => "Independent+Edge"@,
            DIO::LinkedLevel => "Linked+Level"@,
            DIO::LinkedEdge => "Linked+Edge"@,
        }
    }

    /// Whether buttons act on an edge (a short press) rather than on a level.
    pub open spec fn is_edge(self) -> bool {
        self == DIO::IndependentEdge || self == DIO::LinkedEdge
    }

    /// The name under which the mode is published.
    pub fn as_str(&self) -> (s: &'static str)
        ensures
            s@ == self.name(),
    {
        match self {
            DIO::IndependentLevel => "Independent+Level",
            DIO::IndependentEdge => "Independent+Edge",
            DIO::LinkedLevel => "Linked+Level",
            DIO::LinkedEdge => "Linked+Edge",
        }
    }

    /// Reads a wire code or a mode name.
    pub fn from_text(text: &str) -> (r: Option<DIO>)
        ensures
            r == dio_of(text@),
    {
        if str_eq(text, "0") || str_eq(text, "Independent+Level") {
            Some(DIO::IndependentLevel)
        } else if str_eq(text, "1") || str_eq(text, "Independent+Edge") {
            Some(DIO::IndependentEdge)
        } else if str_eq(text, "2") || str_eq(text, "Linked+Level") {
            Some(DIO::LinkedLevel)
        } else if str_eq(text, "3") || str_eq(text, "Linked+Edge") {
            Some(DIO::LinkedEdge)
        } else {
            None
        }
    }
}

impl Default for DIO {
    fn default() -> (r: Self)
        ensures
            r == DIO::IndependentLevel,
    {
        DIO::IndependentLevel
    }
}

/// The view of an optional string.
pub open spec fn opt_text(o: Option<String>) -> Option<Seq<char>> {
    match o {
        Some(s) => Some(s@),
        None => None,
    }
}

/// Controller system information, as the controller reports it.
#[derive(Debug, Clone, Default, PartialEq)]
pub struct CSI {
    pub date: String,
    pub time: String,
    pub artno: String,
    pub serno: String,
    pub fw: String,
    pub hw: String,
}

/// The content of a [`CSI`].
pub struct CSIView {
    pub date: Seq<char>,
    pub time: Seq<char>,
    pub artno: Seq<char>,
    pub serno: Seq<char>,
    pub fw: Seq<char>,
    pub hw: Seq<char>,
}

impl View for CSI {
    type V = CSIView;

    open spec fn view(&self) -> CSIView {
        CSIView {
            date: self.date@,
            time: self.time@,
            artno: self.artno@,
            serno: self.serno@,
            fw: self.fw@,
            hw: self.hw@,
        }
    }
}

/// A value that a device reports under one of its bus addresses.
#[derive(Debug, Clone, PartialEq)]
pub struct Devstatus {
    pub addr: String,
    pub val: i32,
}

/// The content of a [`Devstatus`].
pub struct DevstatusView {
    pub addr: Seq<char>,
    pub val: i32,
}

impl View for Devstatus {
    type V = DevstatusView;

    open spec fn view(&self) -> DevstatusView {
        DevstatusView { addr: self.addr@, val: self.val }
    }
}

/// A change of status of the device in slot `owd`.
#[derive(Debug, Clone, Copy, PartialEq, Eq, Structural)]
pub struct OWDStatus {
    pub owd: u8,
    pub status: Status,
}

impl Default for OWDStatus {
    fn default() -> (r: Self)
        ensures
            r == (OWDStatus { owd: 0, status: Status::Unconfigured }),
    {
        OWDStatus { owd: 0, status: Status::Unconfigured }
    }
}


/// The sub-address of a bus address: the number after its last `_`, if what
/// stands there is a run of digits that spells at most 255.
pub open spec fn subaddr_of(addr: Seq<char>) -> Option<u8> {
    let tail = last_segment(addr);
    if tail.len() > 0 && all_digits(tail) && digits_value(tail) <= 255 {
        Some(digits_value(tail) as u8)
    } else {
        None
    }
}

impl Devstatus {
    /// The sub-address of the reporting bus address: `3` for `OWD5_3`.
    pub fn subaddr(&self) -> (r: Option<u8>)
        ensures
            r == subaddr_of(self.addr@),
    {
        let v = chars_of(self.addr.as_str());
        let k = last_segment_start(&v);
        assert(v@.subrange(k as int, v@.len() as int) =~= v@.skip(k as int));
        if k == v.len() {
            return None;
        }
        match read_digits(&v, k, v.len(), 255) {
            Some(n) => Some(n as u8),
            None => None,
        }
    }
}

/// A message of the controller, without the controller's number.
#[derive(Debug, Clone, PartialEq)]
pub enum Msg {
    Keepalive(char),
    Inf(String),
    Error(u16),
    Evt(String),
    Rst(char),
    Rdy(char),
    Save(char),
    Dataprint(char),
    Datatime(u8),
    Date(String),
    Time(String),
    List3(Vec<DeviceInfo>),
    CSI(CSI),
    DIO(DIO),
    OWDStatus(OWDStatus),
    Devstatus(Devstatus),
}

/// The content of a [`Msg`].
pub enum MsgView {
    Keepalive(char),
    Inf(Seq<char>),
    Error(u16),
    Evt(Seq<char>),
    Rst(char),
    Rdy(char),
    Save(char),
    Dataprint(char),
    Datatime(u8),
    Date(Seq<char>),
    Time(Seq<char>),
    List3(Seq<DeviceInfoView>),
    CSI(CSIView),
    DIO(DIO),
    OWDStatus(OWDStatus),
    Devstatus(DevstatusView),
}

impl View for Msg {
    type V = MsgView;

    open spec fn view(&self) -> MsgView {
        match self {
            Msg::Keepalive(c) => MsgView::Keepalive(*c),
            Msg::Inf(t) => MsgView::Inf(t@),
            Msg::Error(n) => MsgView::Error(*n),
            Msg::Evt(t) => MsgView::Evt(t@),
            Msg::Rst(c) => MsgView::Rst(*c),
            Msg::Rdy(c) => MsgView::Rdy(*c),
            Msg::Save(c) => MsgView::Save(*c),
            Msg::Dataprint(c) => MsgView::Dataprint(*c),
            Msg::Datatime(n) => MsgView::Datatime(*n),
            Msg::Date(t) => MsgView::Date(t@),
            Msg::Time(t) => MsgView::Time(t@),
            Msg::List3(l) => MsgView::List3(l.deep_view()),
            Msg::CSI(c) => MsgView::CSI(c@),
            Msg::DIO(d) => MsgView::DIO(*d),
            Msg::OWDStatus(s) => MsgView::OWDStatus(*s),
            Msg::Devstatus(s) => MsgView::Devstatus(s@),
        }
    }
}

/// The kind of a message: its variant without its content.
#[derive(Debug, Clone, Copy, PartialEq, Eq, Structural)]
pub enum MsgKind {
    Keepalive,
    Inf,
    Error,
    Evt,
    Rst,
    Rdy,
    Save,
    Dataprint,
    Datatime,
    Date,
    Time,
    List3,
    CSI,
    DIO,
    OWDStatus,
    Devstatus,
}

impl MsgView {
    /// The kind of the message.
    pub open spec fn kind(self) -> MsgKind {
        match self {
            MsgView::Keepalive(_) => MsgKind::Keepalive,
            MsgView::Inf(_) => MsgKind::Inf,
            MsgView::Error(_) => MsgKind::Error,
            MsgView::Evt(_) => MsgKind::Evt,
            MsgView::Rst(_) => MsgKind::Rst,
            MsgView::Rdy(_) => MsgKind::Rdy,
            MsgView::Save(_) => MsgKind::Save,
            MsgView::Dataprint(_) => MsgKind::Dataprint,
            MsgView::Datatime(_) => MsgKind::Datatime,
            MsgView::Date(_) => MsgKind::Date,
            MsgView::Time(_) => MsgKind::Time,
            MsgView::List3(_) => MsgKind::List3,
            MsgView::CSI(_) => MsgKind::CSI,
            MsgView::DIO(_) => MsgKind::DIO,
            MsgView::OWDStatus(_) => MsgKind::OWDStatus,
            MsgView::Devstatus(_) => MsgKind::Devstatus,
        }
    }
}

impl Msg {
    /// The kind of the message.
    pub fn kind(&self) -> (k: MsgKind)
        ensures
            k == self@.kind(),
    {
        match self {
            Msg::Keepalive(_) => MsgKind::Keepalive,
            Msg::Inf(_) => MsgKind::Inf,
            Msg::Error(_) => MsgKind::Error,
            Msg::Evt(_) => MsgKind::Evt,
            Msg::Rst(_) => MsgKind::Rst,
            Msg::Rdy(_) => MsgKind::Rdy,
            Msg::Save(_) => MsgKind::Save,
            Msg::Dataprint(_) => MsgKind::Dataprint,
            Msg::Datatime(_) => MsgKind::Datatime,
            Msg::Date(_) => MsgKind::Date,
            Msg::Time(_) => MsgKind::Time,
            Msg::List3(_) => MsgKind::List3,
            Msg::CSI(_) => MsgKind::CSI,
            Msg::DIO(_) => MsgKind::DIO,
            Msg::OWDStatus(_) => MsgKind::OWDStatus,
            Msg::Devstatus(_) => MsgKind::Devstatus,
        }
    }
}

/// A message of the controller with number `contno`.
#[derive(Debug, Clone, PartialEq)]
pub struct OW {
    pub contno: u8,
    pub msg: Msg,
}

/// The content of an [`OW`].
pub struct OWView {
    pub contno: u8,
    pub msg: MsgView,
}

impl View for OW {
    type V = OWView;

    open spec fn view(&self) -> OWView {
        OWView { contno: self.contno, msg: self.msg@ }
    }
}

} // verus!
