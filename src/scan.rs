use vstd::prelude::*;
use crate::address::Address;
use crate::device::{lemma_present_functions, present_functions, Device};
use crate::function::ABSENT;

verus! {

/// Most devices that one scan can hold.
pub const MAX_DEVICES: usize = 32;

/// The devices that a fixed-capacity vector of devices holds, in order.
pub uninterp spec fn devices_held(v: heapless::Vec<Device, 32>) -> Seq<Device>;

/// Relies on `heapless::Vec::new`: a new vector holds nothing.
#[verifier::external_body]
fn devices_new() -> (r: heapless::Vec<Device, 32>)
    ensures
        devices_held(r) == Seq::<Device>::empty(),
{
    heapless::Vec::new()
}

/// Relies on `heapless::Vec::push`: below capacity the item is appended and
/// `Ok` returned; at capacity the item is handed back and nothing changes.
#[verifier::external_body]
fn devices_push(v: &mut heapless::Vec<Device, 32>, d: Device) -> (r: Result<(), Device>)
    ensures
        r is Ok <==> devices_held(*old(v)).len() < 32,
        r is Ok ==> devices_held(*final(v)) == devices_held(*old(v)).push(d),
        r matches Err(x) ==> x == d,
        r is Err ==> devices_held(*final(v)) == devices_held(*old(v)),
{
    v.push(d)
}

/// Relies on `heapless::Vec::as_slice`: the held items, in order.
#[verifier::external_body]
fn devices_slice(v: &heapless::Vec<Device, 32>) -> (r: &[Device])
    ensures
        r@ == devices_held(*v),
{
    v.as_slice()
}

/// Position of a bus and slot in scanning order.
pub open spec fn slot_key(bus: int, slot: int) -> int {
    bus * 32 + slot
}

/// The state of a bus scan as mathematics: the next bus, slot and function to
/// read, the offset-0 words read so far at the current slot, and the
/// functions of each device found so far.
pub struct ScanModel {
    pub bus: nat,
    pub slot: nat,
    pub function: nat,
    pub words: Seq<u32>,
    pub devices: Seq<Seq<Address>>,
}

impl ScanModel {
    /// The scan has gone past the last bus.
    pub open spec fn done(self) -> bool {
        self.bus >= 256
    }

    /// The address whose offset-0 word is read next.
    pub open spec fn current(self) -> Address {
        Address { bus: self.bus as u8, slot: self.slot as u8, function: self.function as u8 }
    }

    /// Every device found lies before the cursor, and the devices stand in
    /// strictly ascending (bus, slot) order, each led by its function 0.
    pub open spec fn ordered(self) -> bool {
        &&& forall|i: int|
            0 <= i < self.devices.len() ==> {
                let d = #[trigger] self.devices[i];
                &&& d.len() >= 1
                &&& d[0].function == 0
                &&& d[0].wf()
                &&& slot_key(d[0].bus as int, d[0].slot as int) < slot_key(
                    self.bus as int,
                    self.slot as int,
                )
            }
        &&& forall|i: int, j: int|
            0 <= i < j < self.devices.len() ==> slot_key(
                (#[trigger] self.devices[i])[0].bus as int,
                self.devices[i][0].slot as int,
            ) < slot_key((#[trigger] self.devices[j])[0].bus as int, self.devices[j][0].slot as int)
    }

    /// The states that a scan passes through.
    pub open spec fn wf(self) -> bool {
        &&& self.bus <= 256
        &&& self.slot < 32
        &&& self.function < 8
        &&& self.words.len() == 8
        &&& self.done() ==> self.slot == 0 && self.function == 0
        &&& self.function > 0 ==> self.words[0] != ABSENT
        &&& self.devices.len() <= 32
        &&& self.ordered()
    }

    /// The cursor moved to function 0 of the next slot.
    pub open spec fn next_slot(self) -> ScanModel {
        if self.slot + 1 < 32 {
            ScanModel { slot: self.slot + 1, function: 0, ..self }
        } else {
            ScanModel { bus: self.bus + 1, slot: 0, function: 0, ..self }
        }
    }

    /// The state after reading `word` at the current address. A slot whose
    /// function 0 does not answer is skipped; otherwise the words of all eight
    /// functions are gathered and the device they make is appended.
    pub open spec fn step(self, word: u32) -> ScanModel {
        if self.function == 0 && word == ABSENT {
            self.next_slot()
        } else if self.function < 7 {
            ScanModel {
                function: self.function + 1,
                words: self.words.update(self.function as int, word),
                ..self
            }
        } else {
            let words = self.words.update(7, word);
            let a = Address { bus: self.bus as u8, slot: self.slot as u8, function: 0 };
            ScanModel {
                words,
                devices: self.devices.push(present_functions(a, words, 8)),
                ..self
            }.next_slot()
        }
    }

    /// The step completes a device.
    pub open spec fn completes_device(self) -> bool {
        self.function == 7
    }
}

/// A scan step keeps the scan well formed: in particular the devices found
/// stay in strictly ascending (bus, slot) order and before the cursor.
pub proof fn lemma_step_keeps_order(m: ScanModel, word: u32)
    requires
        m.wf(),
        !m.done(),
        m.completes_device() ==> m.devices.len() < 32,
    ensures
        m.step(word).wf(),
{
    let n = m.step(word);
    if m.function == 7 {
        let words = m.words.update(7, word);
        let a = Address { bus: m.bus as u8, slot: m.slot as u8, function: 0 };
        lemma_present_functions(a, words, 8);
        let d = present_functions(a, words, 8);
        assert(n.devices == m.devices.push(d));
        assert forall|i: int| 0 <= i < n.devices.len() implies {
            let e = #[trigger] n.devices[i];
            &&& e.len() >= 1
            &&& e[0].function == 0
            &&& e[0].wf()
            &&& slot_key(e[0].bus as int, e[0].slot as int) < slot_key(n.bus as int, n.slot as int)
        } by {
            if i < m.devices.len() {
                assert(n.devices[i] == m.devices[i]);
            }
        }
        assert forall|i: int, j: int| 0 <= i < j < n.devices.len() implies slot_key(
            (#[trigger] n.devices[i])[0].bus as int,
            n.devices[i][0].slot as int,
        ) < slot_key((#[trigger] n.devices[j])[0].bus as int, n.devices[j][0].slot as int) by {
            assert(n.devices[i] == m.devices[i]);
            if j < m.devices.len() {
                assert(n.devices[j] == m.devices[j]);
            }
        }
    } else if m.function == 0 && word == ABSENT {
        assert(n.devices == m.devices);
    } else {
        assert(n.devices == m.devices);
    }
}

/// The offset-0 words of the eight functions at `a`'s bus and slot on a bus
/// whose function at address `x` answers `hw(x)`.
pub open spec fn slot_words(hw: spec_fn(Address) -> u32, a: Address) -> Seq<u32> {
    Seq::new(8, |i: int| hw(Address { bus: a.bus, slot: a.slot, function: i as u8 }))
}

/// The device at a bus and slot of `hw`, if function 0 answers there.
pub open spec fn slot_device(hw: spec_fn(Address) -> u32, bus: nat, slot: nat) -> Seq<Seq<Address>> {
    let a = Address { bus: bus as u8, slot: slot as u8, function: 0 };
    if hw(a) == ABSENT {
        Seq::empty()
    } else {
        seq![present_functions(a, slot_words(hw, a), 8)]
    }
}

/// The devices of `hw` at the first `k` positions of scanning order.
pub open spec fn devices_before(hw: spec_fn(Address) -> u32, k: nat) -> Seq<Seq<Address>>
    decreases k,
{
    if k == 0 {
        Seq::empty()
    } else {
        let j = (k - 1) as nat;
        devices_before(hw, j) + slot_device(hw, j / 32, j % 32)
    }
}

impl ScanModel {
    /// The state is one that scanning `hw` reaches: the devices are those of
    /// every slot before the cursor, and the words gathered at the current
    /// slot are what `hw` answers there.
    pub open spec fn follows(self, hw: spec_fn(Address) -> u32) -> bool {
        &&& self.devices == devices_before(hw, slot_key(self.bus as int, self.slot as int) as nat)
        &&& forall|i: int|
            0 <= i < self.function ==> #[trigger] self.words[i] == hw(
                Address { bus: self.bus as u8, slot: self.slot as u8, function: i as u8 },
            )
    }
}

/// Fed what `hw` answers, a scan finds exactly the devices of `hw` in the
/// slots it has passed, in scanning order and none other; when it is done,
/// those are the devices of every slot of every bus.
pub proof fn lemma_step_follows_hardware(m: ScanModel, hw: spec_fn(Address) -> u32)
    requires
        m.wf(),
        !m.done(),
        m.follows(hw),
    ensures
        m.step(hw(m.current())).follows(hw),
        m.step(hw(m.current())).done() ==> m.step(hw(m.current())).devices == devices_before(
            hw,
            256 * 32,
        ),
{
    let w = hw(m.current());
    let n = m.step(w);
    let k = slot_key(m.bus as int, m.slot as int);
    assert(k / 32 == m.bus && k % 32 == m.slot) by (nonlinear_arith)
        requires
            k == m.bus * 32 + m.slot,
            0 <= m.slot < 32,
    ;
    assert(slot_key(m.next_slot().bus as int, m.next_slot().slot as int) == k + 1);
    let a = Address { bus: m.bus as u8, slot: m.slot as u8, function: 0 };
    assert(m.current() == Address { bus: m.bus as u8, slot: m.slot as u8, function: m.function as u8 });
    if m.function == 0 && w == ABSENT {
        assert(m.current() == a);
        assert(devices_before(hw, (k + 1) as nat) == devices_before(hw, k as nat) + Seq::<Seq<Address>>::empty());
        assert(n.devices =~= devices_before(hw, (k + 1) as nat));
    } else if m.function < 7 {
        assert forall|i: int| 0 <= i < n.function implies #[trigger] n.words[i] == hw(
            Address { bus: n.bus as u8, slot: n.slot as u8, function: i as u8 },
        ) by {
            if i < m.function {
                assert(n.words[i] == m.words[i]);
            }
        }
    } else {
        let words = m.words.update(7, w);
        assert(words =~= slot_words(hw, a));
        if m.function == 0 {
        } else {
            assert(m.words[0] == hw(a));
        }
        assert(hw(a) != ABSENT);
        assert(slot_device(hw, m.bus, m.slot) == seq![present_functions(a, slot_words(hw, a), 8)]);
        assert(n.devices =~= devices_before(hw, (k + 1) as nat));
    }
}

/// A fresh scan follows every bus: it has passed no slot and found nothing.
pub proof fn lemma_start_follows(m: ScanModel, hw: spec_fn(Address) -> u32)
    requires
        m.bus == 0,
        m.slot == 0,
        m.function == 0,
        m.devices == Seq::<Seq<Address>>::empty(),
    ensures
        m.follows(hw),
{
}

/// Why a scan stopped short.
#[derive(Clone, Copy, Debug, PartialEq, Eq, Structural)]
pub enum ScanError {
    /// More devices answer than one scan can hold.
    TooManyDevices,
}

/// What the scan asks for next.
#[derive(Clone, Copy, Debug, PartialEq, Eq, Structural)]
pub enum ScanStep {
    /// Read the configuration-space word at offset 0 of this address and hand
    /// it to [`BusScanner::record`].
    Probe(Address),
    /// Every bus and slot has been visited.
    Done,
}

/// Enumerates the devices on buses 0 to 255, slot by slot. Only function 0
/// decides whether a slot holds a device; the additional functions are read
/// only where it answers.
pub struct BusScanner {
    bus: u16,
    slot: u8,
    function: u8,
    words: [u32; 8],
    devices: heapless::Vec<Device, 32>,
}

impl View for BusScanner {
    type V = ScanModel;

    closed spec fn view(&self) -> ScanModel {
        ScanModel {
            bus: self.bus as nat,
            slot: self.slot as nat,
            function: self.function as nat,
            words: self.words@,
            devices: devices_held(self.devices).map_values(|d: Device| d@),
        }
    }
}

impl BusScanner {
    /// A scan that starts at bus 0, slot 0, with no device found.
    pub fn new() -> (r: BusScanner)
        ensures
            r@.bus == 0,
            r@.slot == 0,
            r@.function == 0,
            r@.devices == Seq::<Seq<Address>>::empty(),
            r@.wf(),
    {
        let r = BusScanner { bus: 0, slot: 0, function: 0, words: [0u32; 8], devices: devices_new() };
        assert(r@.devices =~= Seq::<Seq<Address>>::empty());
        r
    }

    /// The read that the scan needs next, or [`ScanStep::Done`].
    pub fn next_step(&self) -> (r: ScanStep)
        requires
            self@.wf(),
        ensures
            r is Done <==> self@.done(),
            r matches ScanStep::Probe(a) ==> a == self@.current() && a.wf(),
    {
        if self.bus >= 256 {
            ScanStep::Done
        } else {
            ScanStep::Probe(Address { bus: self.bus as u8, slot: self.slot, function: self.function })
        }
    }

    fn advance_slot(&mut self)
        requires
            old(self)@.slot < 32,
            old(self)@.bus < 256,
        ensures
            final(self)@ == old(self)@.next_slot(),
    {
        if self.slot + 1 < 32 {
            self.slot = self.slot + 1;
        } else {
            self.bus = self.bus + 1;
            self.slot = 0;
        }
        self.function = 0;
    }

    /// Takes `word`, the configuration-space word at offset 0 of the address
    /// that [`BusScanner::next_step`] asked for. Fails, changing nothing, where
    /// the device that this word completes does not fit.
    pub fn record(&mut self, word: u32) -> (r: Result<(), ScanError>)
        requires
            old(self)@.wf(),
            !old(self)@.done(),
        ensures
            final(self)@.wf(),
            r is Err <==> old(self)@.completes_device() && old(self)@.devices.len() >= 32,
            r is Ok ==> final(self)@ == old(self)@.step(word),
            r is Err ==> final(self)@ == old(self)@,
    {
        proof {
            if !old(self)@.completes_device() || old(self)@.devices.len() < 32 {
                lemma_step_keeps_order(old(self)@, word);
            }
        }
        if self.function == 0 && word == ABSENT {
            self.advance_slot();
            return Ok(());
        }
        if self.function < 7 {
            let mut words = self.words;
            words.set(self.function as usize, word);
            self.words = words;
            self.function = self.function + 1;
            return Ok(());
        }
        let mut words = self.words;
        words.set(7, word);
        let a = Address { bus: self.bus as u8, slot: self.slot, function: 0 };
        let device = Device::discover(a, &words);
        let device = match device {
            Some(d) => d,
            None => {
                return Ok(());
            },
        };
        match devices_push(&mut self.devices, device) {
            Ok(()) => {},
            Err(_) => {
                return Err(ScanError::TooManyDevices);
            },
        }
        self.words = words;
        assert(self@.devices =~= old(self)@.devices.push(present_functions(a, words@, 8)));
        self.advance_slot();
        Ok(())
    }

    /// The devices found so far, in the order found.
    pub fn devices(&self) -> (r: &[Device])
        ensures
            r@.map_values(|d: Device| d@) == self@.devices,
    {
        devices_slice(&self.devices)
    }

    /// Ends the scan and hands over the devices found, in the order found.
    pub fn into_devices(self) -> (r: heapless::Vec<Device, 32>)
        ensures
            devices_held(r).map_values(|d: Device| d@) == self@.devices,
    {
        self.devices
    }
}

} // verus!
