//! One controller and the devices that it hosts.
use crate::device::{outcome, Device, Error, ErrorView, Model, ModelView};
use crate::info::{DeviceInfo, DeviceInfoView};
use crate::message::{CSIView, Msg, MsgView, OWView, Status, CSI, OW};
use crate::mqtt::{MqttMsg, MqttMsgView};
use crate::routing::{
    cleared, new_subscriptions, registered, Locator, Registration, RouteView, Routes, Token,
};
use crate::text::{decimal, lemma_decimal_digits, push_decimal, str_eq};
use crate::twoway::{TwoWay, TwoWayView};
use vstd::prelude::*;
use vstd::string::*;

verus! {

/// The number of slots of a bus: one for the controller, thirty for devices.
pub const SLOTS: usize = 31;

/// A controller and its devices. Slot 0 holds the controller itself; slot
/// `n`, for 1 to 30, holds the device that the controller enumerates as
/// `OWD<n>`. `busaddrs` leads from each bus address that a device registered
/// to the device's slot.
#[derive(Debug, Clone, PartialEq)]
pub struct Bus {
    pub contno: u8,
    pub devices: Vec<Model>,
    pub busaddrs: Vec<(String, usize)>,
}

/// The content of a [`Bus`].
pub struct BusView {
    pub contno: u8,
    pub devices: Seq<ModelView>,
    pub busaddrs: Seq<(Seq<char>, usize)>,
}

impl View for Bus {
    type V = BusView;

    open spec fn view(&self) -> BusView {
        BusView {
            contno: self.contno,
            devices: self.devices.deep_view(),
            busaddrs: self.busaddrs.deep_view(),
        }
    }
}

/// The bus addresses of one device, each with the device's slot.
pub open spec fn slot_addresses(device: ModelView, slot: usize) -> Seq<(Seq<char>, usize)> {
    device.addresses().map_values(|a: Seq<char>| (a, slot))
}

/// The address index of the first `n` devices: the addresses of each, slot by
/// slot.
pub open spec fn address_index(devices: Seq<ModelView>, n: nat) -> Seq<(Seq<char>, usize)>
    decreases n,
{
    if n == 0 || n > devices.len() {
        Seq::empty()
    } else {
        address_index(devices, (n - 1) as nat) + slot_addresses(devices[n - 1], (n - 1) as usize)
    }
}

/// The slot that an index gives for a bus address: that of the last entry
/// with the address.
pub open spec fn slot_of(index: Seq<(Seq<char>, usize)>, addr: Seq<char>) -> Option<usize>
    decreases index.len(),
{
    if index.len() == 0 {
        None
    } else if index.last().0 == addr {
        Some(index.last().1)
    } else {
        slot_of(index.drop_last(), addr)
    }
}

/// A serial number as it is kept: sixteen `F` stand for none.
pub open spec fn clean_serial(serno: Seq<char>) -> Seq<char> {
    if serno == "FFFFFFFFFFFFFFFF"@ {
        Seq::empty()
    } else {
        serno
    }
}

/// The slot after one entry of an enumeration: a fresh device, chosen by the
/// article number, where the serial number differs from the slot's; where the
/// slot then holds a known device, that device has the entry's status.
pub open spec fn slot_after(slot: ModelView, entry: DeviceInfoView) -> ModelView {
    let dev = DeviceInfoView { serno: clean_serial(entry.serno), ..entry };
    let kept = if slot.info().serno != dev.serno {
        ModelView::select(dev)
    } else {
        slot
    };
    if kept.configured() {
        kept.with_status(entry.status)
    } else {
        kept
    }
}

/// The bus id of the device in slot `slot`: `OWD<slot>`.
pub open spec fn slot_busid(slot: nat) -> Seq<char> {
    "OWD"@ + decimal(slot)
}

/// The number of entries of an enumeration that count: the first thirty.
pub open spec fn counted(list: Seq<DeviceInfoView>) -> nat {
    if list.len() < 30 {
        list.len()
    } else {
        30
    }
}

/// The place of the entry for a slot among the first `n` entries of an
/// enumeration: that of the first one whose bus id is `OWD<slot>`.
pub open spec fn entry_for(list: Seq<DeviceInfoView>, slot: nat, n: nat) -> Option<int>
    decreases n,
{
    if n == 0 || n > list.len() {
        None
    } else {
        match entry_for(list, slot, (n - 1) as nat) {
            Some(k) => Some(k),
            None => if list[n - 1].busid == slot_busid(slot) {
                Some(n - 1)
            } else {
                None
            },
        }
    }
}

/// The devices after an enumeration. Each of the slots 1 to 30 takes the
/// entry whose bus id names it, `OWD<slot>`, wherever that entry stands among
/// the first thirty of the list; a slot that no entry names stays as it is,
/// and an entry with another bus id is skipped. Where several entries name
/// one slot, the first counts.
pub open spec fn populated(devices: Seq<ModelView>, list: Seq<DeviceInfoView>) -> Seq<ModelView> {
    Seq::new(
        devices.len(),
        |i: int|
            if 1 <= i <= 30 {
                match entry_for(list, i as nat, counted(list)) {
                    Some(k) => slot_after(devices[i], list[k]),
                    None => devices[i],
                }
            } else {
                devices[i]
            },
    )
}

/// The entry for a slot stands among the entries that were looked at, and
/// its bus id names the slot.
pub proof fn lemma_entry_for(list: Seq<DeviceInfoView>, slot: nat, n: nat)
    requires
        n <= list.len(),
    ensures
        entry_for(list, slot, n) matches Some(k) ==> 0 <= k < n && list[k].busid == slot_busid(
            slot,
        ),
    decreases n,
{
    if n > 0 {
        lemma_entry_for(list, slot, (n - 1) as nat);
    }
}

/// An entry that was found stays the entry when more entries are looked at.
proof fn lemma_entry_found(list: Seq<DeviceInfoView>, slot: nat, n: nat, m: nat)
    requires
        n <= m <= list.len(),
        entry_for(list, slot, n) is Some,
    ensures
        entry_for(list, slot, m) == entry_for(list, slot, n),
    decreases m - n,
{
    if n < m {
        lemma_entry_found(list, slot, n, (m - 1) as nat);
    }
}

/// The info of a controller with the given number and system information.
pub open spec fn controller_info(contno: u8, csi: CSIView) -> DeviceInfoView {
    DeviceInfoView {
        contno,
        busid: "SYS"@,
        serno: csi.serno,
        status: Status::Online,
        artno: csi.artno,
        name: None,
    }
}

/// The init commands of the known devices among the first `n`.
pub open spec fn init_commands(devices: Seq<ModelView>, n: nat) -> Seq<Seq<char>>
    decreases n,
{
    if n == 0 || n > devices.len() {
        Seq::empty()
    } else {
        let rest = init_commands(devices, (n - 1) as nat);
        if devices[n - 1].configured() {
            rest + devices[n - 1].init_commands()
        } else {
            rest
        }
    }
}

/// The announcements of the known devices among the first `n`.
pub open spec fn announcements(devices: Seq<ModelView>, n: nat) -> Seq<MqttMsgView>
    decreases n,
{
    if n == 0 || n > devices.len() {
        Seq::empty()
    } else {
        let rest = announcements(devices, (n - 1) as nat);
        if devices[n - 1].configured() {
            rest + devices[n - 1].announcements()
        } else {
            rest
        }
    }
}

/// The registrations of one device: its subscriptions, each for the device's
/// place.
pub open spec fn device_registrations(device: ModelView, bus: usize, slot: usize) -> Seq<
    Registration,
> {
    device.subscriptions().map_values(
        |s: (Seq<char>, Token)| (s.0, (Locator { bus, slot }, s.1)),
    )
}

/// The registrations of the known devices among the first `n`, slot by slot.
pub open spec fn registrations(devices: Seq<ModelView>, bus: usize, n: nat) -> Seq<Registration>
    decreases n,
{
    if n == 0 || n > devices.len() {
        Seq::empty()
    } else {
        let rest = registrations(devices, bus, (n - 1) as nat);
        if devices[n - 1].configured() {
            rest + device_registrations(devices[n - 1], bus, (n - 1) as usize)
        } else {
            rest
        }
    }
}

/// The lines that list the known devices among the first `n`.
pub open spec fn listing(devices: Seq<ModelView>, n: nat) -> Seq<char>
    decreases n,
{
    if n == 0 || n > devices.len() {
        Seq::empty()
    } else {
        let rest = listing(devices, (n - 1) as nat);
        if devices[n - 1].configured() {
            rest + devices[n - 1].line() + "\n"@
        } else {
            rest
        }
    }
}

impl BusView {
    /// The listing of the bus: a headline and a line for each known device.
    pub open spec fn text(self) -> Seq<char> {
        "Controller "@ + decimal(self.contno as nat) + ":\n"@ + listing(
            self.devices,
            self.devices.len(),
        )
    }

    /// The number under which the route table knows this bus: the
    /// controller's number.
    pub open spec fn bus_id(self) -> usize {
        self.contno as usize
    }

    /// The bus with another device in one slot.
    pub open spec fn with_slot(self, slot: int, device: ModelView) -> BusView {
        BusView { devices: self.devices.update(slot, device), ..self }
    }

    /// Whether a status change names a slot that holds a known device.
    pub open spec fn has_device(self, owd: u8) -> bool {
        owd < SLOTS && self.devices[owd as int].configured()
    }

    /// The bus after a controller message that arrives at `now`.
    pub open spec fn after(self, resp: OWView, now: u64) -> BusView {
        match resp.msg {
            MsgView::CSI(csi) => self.with_controller(resp.contno, csi, now),
            MsgView::List3(list) => self.populated(list),
            MsgView::DIO(_) => self.with_slot(0, self.devices[0].after(resp, now)),
            MsgView::Devstatus(s) => match slot_of(self.busaddrs, s.addr) {
                Some(i) => self.with_slot(i as int, self.devices[i as int].after(resp, now)),
                None => self,
            },
            MsgView::OWDStatus(s) => if self.has_device(s.owd) {
                self.with_slot(s.owd as int, self.devices[s.owd as int].with_status(s.status))
            } else {
                self
            },
            _ => self,
        }
    }

    /// The route table after a controller message: an enumeration replaces
    /// the registrations of this bus by those of its new devices.
    pub open spec fn routes_after(self, resp: OWView, routes: Seq<RouteView>) -> Seq<RouteView> {
        match resp.msg {
            MsgView::List3(list) => registered(
                cleared(routes, self.bus_id()),
                registrations(populated(self.devices, list), self.bus_id(), SLOTS as nat),
            ),
            _ => routes,
        }
    }

    /// What the bus answers to a controller message. System information
    /// goes to the controller's device, freshly made. An enumeration brings
    /// the new subscriptions and the announcements of all known devices, and
    /// their init commands. The I/O mode goes to slot 0, a device status to
    /// the slot that registered its address, if any. A status change is
    /// published for the slot it names, if that holds a known device.
    /// Anything else brings nothing.
    pub open spec fn answer(self, resp: OWView, routes: Seq<RouteView>, now: u64) -> Result<
        TwoWayView,
        ErrorView,
    > {
        match resp.msg {
            MsgView::CSI(csi) => ModelView::select(controller_info(resp.contno, csi)).answer(
                resp,
                now,
            ),
            MsgView::List3(list) => {
                let devices = populated(self.devices, list);
                Ok(
                    TwoWayView {
                        mqtt: new_subscriptions(
                            cleared(routes, self.bus_id()),
                            registrations(devices, self.bus_id(), SLOTS as nat),
                        ) + announcements(devices, SLOTS as nat),
                        ow: init_commands(devices, SLOTS as nat),
                    },
                )
            },
            MsgView::DIO(_) => self.devices[0].answer(resp, now),
            MsgView::Devstatus(s) => match slot_of(self.busaddrs, s.addr) {
                Some(i) => self.devices[i as int].answer(resp, now),
                None => Ok(TwoWayView::empty()),
            },
            MsgView::OWDStatus(s) => if self.has_device(s.owd) {
                Ok(
                    TwoWayView::of_mqtt(
                        seq![self.devices[s.owd as int].with_status(s.status).status_msg()],
                    ),
                )
            } else {
                Ok(TwoWayView::empty())
            },
            _ => Ok(TwoWayView::empty()),
        }
    }

    /// A bus has its 31 slots, and its index holds exactly the addresses
    /// that its devices register.
    pub open spec fn wf(self) -> bool {
        &&& self.devices.len() == SLOTS
        &&& self.busaddrs == address_index(self.devices, SLOTS as nat)
    }

    /// A bus without controller and devices.
    pub open spec fn empty() -> BusView {
        BusView {
            contno: 0,
            devices: Seq::new(SLOTS as nat, |i: int| ModelView::empty()),
            busaddrs: Seq::empty(),
        }
    }

    /// The bus with other devices, and the index that belongs to them.
    pub open spec fn with_devices(self, devices: Seq<ModelView>) -> BusView {
        BusView {
            contno: self.contno,
            devices,
            busaddrs: address_index(devices, devices.len()),
        }
    }

    /// The bus after an enumeration.
    pub open spec fn populated(self, list: Seq<DeviceInfoView>) -> BusView {
        self.with_devices(populated(self.devices, list))
    }

    /// The bus after it learnt its controller: the controller's number is
    /// the bus's, and slot 0 holds the controller, which has seen its system
    /// information.
    pub open spec fn with_controller(self, contno: u8, csi: CSIView, now: u64) -> BusView {
        BusView { contno, ..self }.with_devices(
            self.devices.update(
                0,
                ModelView::select(controller_info(contno, csi)).after(
                    OWView { contno, msg: MsgView::CSI(csi) },
                    now,
                ),
            ),
        )
    }
}


/// A slot that an index gives for an address lies among the devices, and the
/// device there registered the address.
pub proof fn lemma_slot_of_index(devices: Seq<ModelView>, n: nat, addr: Seq<char>)
    requires
        n <= devices.len(),
        n <= usize::MAX,
    ensures
        slot_of(address_index(devices, n), addr) matches Some(i) ==> i < n
            && devices[i as int].addresses().contains(addr),
    decreases n,
{
    if n > 0 {
        lemma_slot_of_index(devices, (n - 1) as nat, addr);
        lemma_slot_of_append(
            address_index(devices, (n - 1) as nat),
            devices[n - 1],
            (n - 1) as usize,
            devices[n - 1].addresses().len(),
            addr,
        );
        assert(slot_addresses(devices[n - 1], (n - 1) as usize).take(
            devices[n - 1].addresses().len() as int,
        ) =~= slot_addresses(devices[n - 1], (n - 1) as usize));
    }
}

proof fn lemma_slot_of_append(
    base: Seq<(Seq<char>, usize)>,
    device: ModelView,
    slot: usize,
    j: nat,
    addr: Seq<char>,
)
    requires
        j <= device.addresses().len(),
    ensures
        slot_of(base + slot_addresses(device, slot).take(j as int), addr) matches Some(i) ==> (i
            == slot && device.addresses().contains(addr)) || slot_of(base, addr) == Some(i),
    decreases j,
{
    let added = slot_addresses(device, slot);
    let index = base + added.take(j as int);
    if j == 0 {
        assert(index =~= base);
    } else {
        lemma_slot_of_append(base, device, slot, (j - 1) as nat, addr);
        assert(index.drop_last() =~= base + added.take(j - 1));
        assert(index.last() == (device.addresses()[j - 1], slot));
        if index.last().0 == addr {
            assert(device.addresses()[j - 1] == addr);
        }
    }
}

impl Bus {
    /// A bus without controller and devices.
    pub fn new() -> (r: Self)
        ensures
            r@ == BusView::empty(),
            r@.wf(),
    {
        let mut devices: Vec<Model> = Vec::new();
        while devices.len() < SLOTS
            invariant
                devices@.len() <= SLOTS,
                forall|i: int| 0 <= i < devices@.len() ==> devices@[i]@ == ModelView::empty(),
            decreases SLOTS - devices@.len(),
        {
            devices.push(Model::default());
        }
        let r = Bus { contno: 0, devices, busaddrs: Vec::new() };
        assert(r@.devices =~= BusView::empty().devices);
        assert(r@.busaddrs =~= Seq::empty());
        proof {
            Self::lemma_empty_index(r@.devices, SLOTS as nat);
        }
        r
    }

    proof fn lemma_empty_index(devices: Seq<ModelView>, n: nat)
        requires
            n <= devices.len(),
            forall|i: int| 0 <= i < devices.len() ==> devices[i] == ModelView::empty(),
        ensures
            address_index(devices, n) == Seq::<(Seq<char>, usize)>::empty(),
        decreases n,
    {
        if n > 0 {
            Self::lemma_empty_index(devices, (n - 1) as nat);
            assert(slot_addresses(devices[n - 1], (n - 1) as usize) =~= Seq::empty());
            assert(address_index(devices, n) =~= Seq::empty());
        }
    }

    /// The slot of the device that registered a bus address, if there is one.
    pub fn index(&self, busaddr: &str) -> (r: Option<usize>)
        ensures
            r == slot_of(self@.busaddrs, busaddr@),
    {
        let mut k: usize = self.busaddrs.len();
        let ghost index = self@.busaddrs;
        assert(index.take(k as int) =~= index);
        while k > 0
            invariant
                k <= self.busaddrs@.len(),
                index == self@.busaddrs,
                slot_of(index, busaddr@) == slot_of(index.take(k as int), busaddr@),
            decreases k,
        {
            let entry = &self.busaddrs[k - 1];
            proof {
                assert(index.take(k as int).last() == (entry.0@, entry.1));
                assert(index.take(k as int).drop_last() =~= index.take(k - 1));
            }
            if str_eq(entry.0.as_str(), busaddr) {
                return Some(entry.1);
            }
            k -= 1;
        }
        None
    }

    /// Builds the address index anew from what the devices register.
    pub fn register_1wire(&mut self)
        requires
            old(self).devices@.len() <= usize::MAX,
        ensures
            final(self)@ == old(self)@.with_devices(old(self)@.devices),
            final(self).devices == old(self).devices,
    {
        let mut index: Vec<(String, usize)> = Vec::new();
        let mut i: usize = 0;
        let ghost devices = self@.devices;
        assert(index.deep_view() =~= address_index(devices, 0));
        while i < self.devices.len()
            invariant
                i <= self.devices@.len(),
                devices == self@.devices,
                self.devices == old(self).devices,
                self.contno == old(self).contno,
                index.deep_view() == address_index(devices, i as nat),
            decreases self.devices@.len() - i,
        {
            let addrs = self.devices[i].register_1wire();
            let mut k: usize = 0;
            let ghost base = index.deep_view();
            let ghost added = slot_addresses(devices[i as int], i);
            assert(added.take(0) =~= Seq::empty());
            assert(base + added.take(0) =~= base);
            while k < addrs.len()
                invariant
                    k <= addrs@.len(),
                    addrs.deep_view() == devices[i as int].addresses(),
                    added == slot_addresses(devices[i as int], i),
                    index.deep_view() == base + added.take(k as int),
                decreases addrs@.len() - k,
            {
                let a = addrs[k].clone();
                let ghost before = index.deep_view();
                let ghost entry = (a@, i);
                index.push((a, i));
                assert(index.deep_view() =~= before.push(entry));
                assert(added[k as int] == (addrs.deep_view()[k as int], i));
                assert(added.take(k + 1) =~= added.take(k as int).push(entry));
                assert(base + added.take(k + 1) =~= (base + added.take(k as int)).push(entry));
                k += 1;
            }
            assert(added.take(added.len() as int) =~= added);
            i += 1;
        }
        self.busaddrs = index;
    }
}

/// The index of a bus does not change when a slot gets a device with the
/// same addresses.
pub proof fn lemma_index_unchanged(devices: Seq<ModelView>, slot: int, device: ModelView, n: nat)
    requires
        0 <= slot < devices.len(),
        n <= devices.len(),
        device.addresses() == devices[slot].addresses(),
    ensures
        address_index(devices.update(slot, device), n) == address_index(devices, n),
    decreases n,
{
    if n > 0 {
        lemma_index_unchanged(devices, slot, device, (n - 1) as nat);
    }
}

/// A controller message and a change of status leave the addresses of a
/// device as they are.
pub proof fn lemma_addresses_stay(device: ModelView, resp: OWView, now: u64, status: Status)
    ensures
        device.after(resp, now).addresses() == device.addresses(),
        device.with_status(status).addresses() == device.addresses(),
        device.after(resp, now).configured() == device.configured(),
        device.with_status(status).configured() == device.configured(),
{
}

impl Bus {
    /// The place of the entry for a slot among those that count.
    fn find_entry(lst: &Vec<DeviceInfo>, slot: u8) -> (r: Option<usize>)
        ensures
            match entry_for(lst.deep_view(), slot as nat, counted(lst.deep_view())) {
                Some(k) => r == Some(k as usize),
                None => r is None,
            },
            r matches Some(k) ==> k < lst@.len(),
    {
        let n: usize = if lst.len() < 30 {
            lst.len()
        } else {
            30
        };
        let mut busid = String::from_str("OWD");
        push_decimal(&mut busid, slot as u64);
        let ghost list = lst.deep_view();
        let mut k: usize = 0;
        while k < n
            invariant
                k <= n <= lst@.len(),
                n == counted(list),
                list == lst.deep_view(),
                busid@ == slot_busid(slot as nat),
                entry_for(list, slot as nat, k as nat) is None,
            decreases n - k,
        {
            if str_eq(lst[k].busid.as_str(), busid.as_str()) {
                proof {
                    assert(list[k as int].busid == lst@[k as int].busid@);
                    assert(entry_for(list, slot as nat, (k + 1) as nat) == Some(k as int));
                    lemma_entry_found(list, slot as nat, (k + 1) as nat, n as nat);
                }
                return Some(k);
            }
            assert(list[k as int].busid == lst@[k as int].busid@);
            k += 1;
        }
        None
    }

    /// Takes an enumeration: each of the slots 1 to 30 takes the entry that
    /// names it by its bus id, `OWD<slot>`.
    pub fn populate(&mut self, lst: Vec<DeviceInfo>)
        requires
            old(self)@.devices.len() == SLOTS,
        ensures
            final(self)@ == old(self)@.populated(lst.deep_view()),
            final(self)@.wf(),
    {
        let ghost before = self@.devices;
        let ghost list = lst.deep_view();
        let mut slot: u8 = 1;
        while slot <= 30
            invariant
                1 <= slot <= 31,
                list == lst.deep_view(),
                self.contno == old(self).contno,
                self@.devices.len() == SLOTS,
                before.len() == SLOTS,
                forall|i: int|
                    0 <= i < SLOTS ==> #[trigger] self@.devices[i] == if 1 <= i < slot {
                        populated(before, list)[i]
                    } else {
                        before[i]
                    },
            decreases 31 - slot,
        {
            let ghost devices = self@.devices;
            assert(devices[slot as int] == before[slot as int]);
            match Self::find_entry(&lst, slot) {
                Some(k) => {
                    let mut entry = lst[k].clone();
                    let status = entry.status;
                    if str_eq(entry.serno.as_str(), "FFFFFFFFFFFFFFFF") {
                        entry.serno = String::new();
                    }
                    let at = slot as usize;
                    if !str_eq(self.devices[at].info().serno.as_str(), entry.serno.as_str()) {
                        self.devices[at] = Model::select(entry);
                    }
                    if self.devices[at].configured() {
                        let _ = self.devices[at].set_status(status);
                    }
                    assert(self@.devices[slot as int] == slot_after(
                        before[slot as int],
                        list[k as int],
                    ));
                    proof {
                        lemma_entry_for(list, slot as nat, counted(list));
                    }
                    assert(entry_for(list, slot as nat, counted(list)) == Some(k as int));
                    assert(self@.devices[slot as int] == populated(before, list)[slot as int]);
                },
                None => {
                    assert(entry_for(list, slot as nat, counted(list)) is None);
                    assert(self@.devices[slot as int] == populated(before, list)[slot as int]);
                },
            }
            proof {
                assert forall|i: int| 0 <= i < SLOTS implies #[trigger] self@.devices[i] == if 1
                    <= i < slot + 1 {
                    populated(before, list)[i]
                } else {
                    before[i]
                } by {
                    if i != slot {
                        assert(self@.devices[i] == devices[i]);
                    }
                }
            }
            slot += 1;
        }
        assert(self@.devices =~= populated(before, list));
        self.register_1wire();
    }

    /// Installs the controller: its number becomes the bus's, a device
    /// chosen by its article number goes to slot 0 and gets the system
    /// information.
    pub fn set_controller(&mut self, contno: u8, csi: CSI, now: u64) -> (r: Result<TwoWay, Error>)
        requires
            old(self)@.devices.len() == SLOTS,
        ensures
            final(self)@ == old(self)@.with_controller(contno, csi@, now),
            final(self)@.wf(),
            outcome(r) == ModelView::select(controller_info(contno, csi@)).answer(
                OWView { contno, msg: MsgView::CSI(csi@) },
                now,
            ),
    {
        self.contno = contno;
        let info = DeviceInfo {
            contno,
            busid: String::from_str("SYS"),
            serno: csi.serno.clone(),
            status: Status::Online,
            artno: csi.artno.clone(),
            name: None,
        };
        let mut slot = Model::select(info);
        let r = slot.handle_1wire(OW { contno, msg: Msg::CSI(csi) }, now);
        let ghost devices = self@.devices;
        self.devices[0] = slot;
        assert(self@.devices =~= devices.update(0, slot@));
        self.register_1wire();
        r
    }

    /// The listing of the bus, for the log.
    pub fn to_text(&self) -> (s: String)
        ensures
            s@ == self@.text(),
    {
        let mut s = String::from_str("Controller ");
        push_decimal(&mut s, self.contno as u64);
        s.append(":\n");
        let ghost head = s@;
        let mut i: usize = 0;
        assert(head + listing(self@.devices, 0) =~= head);
        while i < self.devices.len()
            invariant
                i <= self.devices@.len(),
                s@ == head + listing(self@.devices, i as nat),
            decreases self.devices@.len() - i,
        {
            if self.devices[i].configured() {
                let line = self.devices[i].to_text();
                s.append(line.as_str());
                s.append("\n");
                assert(s@ =~= head + listing(self@.devices, (i + 1) as nat));
            }
            i += 1;
        }
        s
    }

    /// The commands to send right after enumeration, of all known devices.
    pub fn init(&mut self) -> (r: Vec<String>)
        requires
            old(self)@.devices.len() == SLOTS,
        ensures
            final(self)@ == old(self)@,
            r.deep_view() == init_commands(old(self)@.devices, SLOTS as nat),
    {
        let mut r: Vec<String> = Vec::new();
        let mut i: usize = 0;
        let ghost devices = self@.devices;
        assert(r.deep_view() =~= init_commands(devices, 0));
        while i < SLOTS
            invariant
                i <= SLOTS,
                self@ == old(self)@,
                devices == self@.devices,
                devices.len() == SLOTS,
                r.deep_view() == init_commands(devices, i as nat),
            decreases SLOTS - i,
        {
            if self.devices[i].configured() {
                let ghost bus = self@;
                let mut cmds = self.devices[i].init();
                assert(self@.devices =~= bus.devices);
                let ghost before = r.deep_view();
                let ghost added = cmds.deep_view();
                r.append(&mut cmds);
                assert(r.deep_view() =~= before + added);
            }
            i += 1;
        }
        r
    }

    /// The announcements of all known devices.
    pub fn announce(&self) -> (r: Vec<MqttMsg>)
        requires
            self@.devices.len() == SLOTS,
        ensures
            r.deep_view() == announcements(self@.devices, SLOTS as nat),
    {
        let mut r: Vec<MqttMsg> = Vec::new();
        let mut i: usize = 0;
        assert(r.deep_view() =~= announcements(self@.devices, 0));
        while i < SLOTS
            invariant
                i <= SLOTS,
                self@.devices.len() == SLOTS,
                r.deep_view() == announcements(self@.devices, i as nat),
            decreases SLOTS - i,
        {
            if self.devices[i].configured() {
                let mut msgs = self.devices[i].announce();
                let ghost before = r.deep_view();
                let ghost added = msgs.deep_view();
                r.append(&mut msgs);
                assert(r.deep_view() =~= before + added);
            }
            i += 1;
        }
        r
    }

    /// Replaces the registrations of this bus in the route table by those of
    /// its known devices. The subscriptions for the patterns that are new to
    /// the table come back.
    pub fn register_mqtt(&self, routes: &mut Routes) -> (r: TwoWay)
        requires
            self@.devices.len() == SLOTS,
        ensures
            final(routes)@ == registered(
                cleared(old(routes)@, self@.bus_id()),
                registrations(self@.devices, self@.bus_id(), SLOTS as nat),
            ),
            r@ == TwoWayView::of_mqtt(
                new_subscriptions(
                    cleared(old(routes)@, self@.bus_id()),
                    registrations(self@.devices, self@.bus_id(), SLOTS as nat),
                ),
            ),
    {
        let bus: usize = self.contno as usize;
        let mut res = TwoWay::empty();
        routes.clear_bus(bus);
        let ghost base = routes@;
        let ghost devices = self@.devices;
        let mut i: usize = 0;
        while i < SLOTS
            invariant
                i <= SLOTS,
                bus == self@.bus_id(),
                devices == self@.devices,
                devices.len() == SLOTS,
                routes@ == registered(base, registrations(devices, bus, i as nat)),
                res@ == TwoWayView::of_mqtt(
                    new_subscriptions(base, registrations(devices, bus, i as nat)),
                ),
            decreases SLOTS - i,
        {
            if self.devices[i].configured() {
                let subs = self.devices[i].register_mqtt();
                let ghost done = registrations(devices, bus, i as nat);
                let ghost mine = device_registrations(devices[i as int], bus, i);
                let mut k: usize = 0;
                assert(done + mine.take(0) =~= done);
                while k < subs.len()
                    invariant
                        k <= subs@.len(),
                        subs.deep_view() == devices[i as int].subscriptions(),
                        mine == device_registrations(devices[i as int], bus, i),
                        routes@ == registered(base, done + mine.take(k as int)),
                        res@ == TwoWayView::of_mqtt(
                            new_subscriptions(base, done + mine.take(k as int)),
                        ),
                    decreases subs@.len() - k,
                {
                    let topic = subs[k].0.clone();
                    let token = subs[k].1;
                    proof {
                        let regs = done + mine.take(k + 1);
                        assert(mine[k as int] == (topic@, (Locator { bus, slot: i }, token)));
                        assert(regs.drop_last() =~= done + mine.take(k as int));
                        assert(regs.last() == mine[k as int]);
                    }
                    match routes.register(topic, Locator { bus, slot: i }, token) {
                        Some(m) => {
                            res.push_mqtt(m);
                        },
                        None => {},
                    }
                    k += 1;
                }
                assert(mine.take(mine.len() as int) =~= mine);
            }
            i += 1;
        }
        res
    }

    /// Takes a message of the controller that arrived at `now`, a time in
    /// milliseconds on a clock that does not go back.
    pub fn handle_1wire(&mut self, resp: OW, routes: &mut Routes, now: u64) -> (r: Result<
        TwoWay,
        Error,
    >)
        requires
            old(self)@.wf(),
        ensures
            final(self)@.wf(),
            final(self)@ == old(self)@.after(resp@, now),
            final(routes)@ == old(self)@.routes_after(resp@, old(routes)@),
            outcome(r) == old(self)@.answer(resp@, old(routes)@, now),
    {
        let contno = resp.contno;
        let ghost bus = self@;
        match resp.msg {
            Msg::CSI(csi) => self.set_controller(contno, csi, now),
            Msg::List3(l) => {
                self.populate(l);
                let mut res = self.register_mqtt(routes);
                let init_cmds = self.init();
                let discovery_ann = self.announce();
                res.append(TwoWay::new(discovery_ann, init_cmds));
                assert(res@.ow =~= init_commands(self@.devices, SLOTS as nat));
                Ok(res)
            },
            Msg::DIO(dio) => {
                let r = self.devices[0].handle_1wire(OW { contno, msg: Msg::DIO(dio) }, now);
                proof {
                    lemma_addresses_stay(bus.devices[0], resp@, now, Status::Online);
                    lemma_index_unchanged(bus.devices, 0, self@.devices[0], SLOTS as nat);
                    assert(self@.devices =~= bus.devices.update(0, self@.devices[0]));
                }
                r
            },
            Msg::Devstatus(s) => {
                match self.index(s.addr.as_str()) {
                    Some(i) => {
                        proof {
                            lemma_slot_of_index(bus.devices, SLOTS as nat, s.addr@);
                            let k = choose|k: int|
                                0 <= k < bus.devices[i as int].addresses().len()
                                    && bus.devices[i as int].addresses()[k] == s.addr@;
                            crate::device::model::lemma_addresses_accepted(bus.devices[i as int], k);
                        }
                        let r = self.devices[i].handle_1wire(
                            OW { contno, msg: Msg::Devstatus(s) },
                            now,
                        );
                        proof {
                            lemma_addresses_stay(bus.devices[i as int], resp@, now, Status::Online);
                            lemma_index_unchanged(
                                bus.devices,
                                i as int,
                                self@.devices[i as int],
                                SLOTS as nat,
                            );
                            assert(self@.devices =~= bus.devices.update(
                                i as int,
                                self@.devices[i as int],
                            ));
                        }
                        r
                    },
                    None => Ok(TwoWay::empty()),
                }
            },
            Msg::OWDStatus(s) => {
                let slot = s.owd as usize;
                if slot < SLOTS && self.devices[slot].configured() {
                    let m = self.devices[slot].set_status(s.status);
                    proof {
                        lemma_addresses_stay(bus.devices[slot as int], resp@, now, s.status);
                        lemma_index_unchanged(
                            bus.devices,
                            slot as int,
                            self@.devices[slot as int],
                            SLOTS as nat,
                        );
                        assert(self@.devices =~= bus.devices.update(
                            slot as int,
                            self@.devices[slot as int],
                        ));
                    }
                    Ok(TwoWay::from_mqtt(m))
                } else {
                    Ok(TwoWay::empty())
                }
            },
            _ => Ok(TwoWay::empty()),
        }
    }
}

/// An enumeration places by bus id, not by the order of its entries: the
/// first entry among those that count whose bus id is `OWD<slot>` is the one
/// that slot `slot` takes, wherever it stands in the list. The controller's
/// own slot is never touched.
pub proof fn law_enumeration_by_bus_id(
    devices: Seq<ModelView>,
    list: Seq<DeviceInfoView>,
    slot: int,
    k: int,
)
    requires
        devices.len() == SLOTS,
        1 <= slot <= 30,
        0 <= k < counted(list),
        list[k].busid == slot_busid(slot as nat),
        forall|j: int| 0 <= j < k ==> (#[trigger] list[j]).busid != slot_busid(slot as nat),
    ensures
        populated(devices, list)[slot] == slot_after(devices[slot], list[k]),
        populated(devices, list)[0] == devices[0],
{
    lemma_first_entry(list, slot as nat, k, (k + 1) as nat);
    lemma_entry_found(list, slot as nat, (k + 1) as nat, counted(list));
}

/// A slot that no entry among those that count names stays as it is.
pub proof fn law_enumeration_leaves_other_slots(
    devices: Seq<ModelView>,
    list: Seq<DeviceInfoView>,
    slot: int,
)
    requires
        devices.len() == SLOTS,
        0 <= slot < SLOTS,
        forall|j: int| 0 <= j < counted(list) ==> (#[trigger] list[j]).busid != slot_busid(
            slot as nat,
        ),
    ensures
        populated(devices, list)[slot] == devices[slot],
{
    if slot >= 1 {
        lemma_entry_for(list, slot as nat, counted(list));
    }
}

/// A bus id names one slot only: an entry can land in no other.
pub proof fn law_bus_id_names_one_slot(a: nat, b: nat)
    requires
        slot_busid(a) == slot_busid(b),
    ensures
        a == b,
{
    reveal_strlit("OWD");
    lemma_decimal_digits(a);
    lemma_decimal_digits(b);
    assert(slot_busid(a).skip(3) =~= decimal(a));
    assert(slot_busid(b).skip(3) =~= decimal(b));
}

/// The first entry that names a slot is the entry for it.
proof fn lemma_first_entry(list: Seq<DeviceInfoView>, slot: nat, k: int, n: nat)
    requires
        n <= k + 1,
        0 <= k < list.len(),
        list[k].busid == slot_busid(slot),
        forall|j: int| 0 <= j < k ==> (#[trigger] list[j]).busid != slot_busid(slot),
    ensures
        entry_for(list, slot, n) == if n == k + 1 {
            Some(k)
        } else {
            None::<int>
        },
    decreases n,
{
    if n > 0 {
        lemma_first_entry(list, slot, k, (n - 1) as nat);
        if n - 1 < k {
            assert(list[n - 1].busid != slot_busid(slot));
        }
    }
}

/// One entry of an enumeration, applied twice to a slot, leaves what it left
/// the first time.
pub proof fn lemma_slot_after_twice(slot: ModelView, entry: DeviceInfoView)
    ensures
        slot_after(slot_after(slot, entry), entry) == slot_after(slot, entry),
{
    let dev = DeviceInfoView { serno: clean_serial(entry.serno), ..entry };
    let once = slot_after(slot, entry);
    assert(ModelView::select(dev).info() == dev);
    assert(once.info().serno == dev.serno);
}

/// Applying the same enumeration twice to a bus gives the same bus as
/// applying it once: the same devices with the same info, and the same
/// address index.
pub proof fn law_enumeration_idempotent(bus: BusView, resp: OWView, now: u64, later: u64)
    requires
        bus.devices.len() == SLOTS,
        resp.msg is List3,
    ensures
        bus.after(resp, now).after(resp, later) == bus.after(resp, now),
{
    let list = resp.msg->List3_0;
    let once = populated(bus.devices, list);
    let twice = populated(once, list);
    assert forall|i: int| 0 <= i < SLOTS implies twice[i] == once[i] by {
        if 1 <= i <= 30 {
            match entry_for(list, i as nat, counted(list)) {
                Some(k) => {
                    lemma_slot_after_twice(bus.devices[i], list[k]);
                },
                None => {},
            }
        }
    }
    assert(twice =~= once);
}

impl DeepView for Bus {
    type V = BusView;

    open spec fn deep_view(&self) -> BusView {
        self@
    }
}

impl Default for Bus {
    fn default() -> (r: Self)
        ensures
            r@ == BusView::empty(),
            r@.wf(),
    {
        Bus::new()
    }
}

} // verus!
