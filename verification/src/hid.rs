//! Device selection and output-report encoding for the controller's USB HID
//! interface. The HID I/O itself lives with the caller; this module decides
//! which interface to use and which bytes to send.

use vstd::prelude::*;

verus! {

/// Valve's USB vendor ID. Shared across all their controllers.
pub const VALVE_VID: u16 = 0x28de;

/// PID of the controller connected over USB directly (wired).
pub const DEFAULT_PID: u16 = 0x1302;

/// PID of the wireless receiver ("Steam Controller Puck").
pub const WIRELESS_PUCK_PID: u16 = 0x1304;

/// How long, in milliseconds, to wait for a probe report before giving up
/// on a candidate interface and moving to the next one.
pub const PROBE_TIMEOUT_MS: i32 = 300;

/// Criteria for locating the controller among connected HID devices.
#[derive(Debug, Clone, Copy)]
pub struct DeviceFilter {
    pub vid: u16,
    /// `None` matches any PID under `vid`.
    pub pid: Option<u16>,
}

impl Default for DeviceFilter {
    /// Valve's vendor id and the wired controller's product id.
    fn default() -> (r: Self)
        ensures
            r.vid == VALVE_VID,
            r.pid == Some(DEFAULT_PID),
    {
        DeviceFilter { vid: VALVE_VID, pid: Some(DEFAULT_PID) }
    }
}

/// `true` when a device with ids `vid`/`pid` satisfies `filter`.
pub open spec fn filter_matches(filter: DeviceFilter, vid: u16, pid: u16) -> bool {
    vid == filter.vid && match filter.pid {
        None => true,
        Some(p) => p == pid,
    }
}

impl DeviceFilter {
    /// `true` when a device with ids `vid`/`pid` is a candidate: same vendor
    /// id, and same product id unless the filter leaves it open.
    pub fn matches(&self, vid: u16, pid: u16) -> (r: bool)
        ensures
            r == filter_matches(*self, vid, pid),
    {
        vid == self.vid && match self.pid {
            None => true,
            Some(p) => p == pid,
        }
    }
}

/// A basic description of a discovered HID device, for `--list` output.
#[derive(Debug, Clone)]
pub struct DeviceSummary {
    pub vid: u16,
    pub pid: u16,
    pub path: String,
    pub product: Option<String>,
    pub serial: Option<String>,
}

/// The devices of `devices` whose vendor id is `vid`, in order.
pub open spec fn with_vendor(devices: Seq<DeviceSummary>, vid: u16) -> Seq<DeviceSummary>
    decreases devices.len(),
{
    if devices.len() == 0 {
        Seq::empty()
    } else {
        let rest = with_vendor(devices.drop_last(), vid);
        if devices.last().vid == vid {
            rest.push(devices.last())
        } else {
            rest
        }
    }
}

/// Selecting a vendor's devices keeps exactly the devices with that vendor
/// id, every one of them and in their order, whatever their product ids
/// (several interfaces under one product id all stay).
pub proof fn lemma_with_vendor_is_filter(devices: Seq<DeviceSummary>, vid: u16)
    ensures
        with_vendor(devices, vid) == devices.filter(|d: DeviceSummary| d.vid == vid),
    decreases devices.len(),
{
    reveal(Seq::filter);
    if devices.len() > 0 {
        lemma_with_vendor_is_filter(devices.drop_last(), vid);
    }
}

/// Keeps the devices whose vendor id is `vid` (product id unfiltered), in
/// the order they came in.
pub fn devices_with_vendor(devices: Vec<DeviceSummary>, vid: u16) -> (r: Vec<DeviceSummary>)
    ensures
        r@ == with_vendor(devices@, vid),
        r@ == devices@.filter(|d: DeviceSummary| d.vid == vid),
{
    let ghost all = devices@;
    let mut rest = devices;
    let mut kept: Vec<DeviceSummary> = Vec::new();
    let ghost mut k: int = 0;
    while rest.len() > 0
        invariant
            0 <= k <= all.len(),
            rest@ == all.subrange(k, all.len() as int),
            kept@ == with_vendor(all.subrange(0, k), vid),
        decreases rest@.len(),
    {
        let d = rest.remove(0);
        proof {
            assert(all.subrange(0, k + 1).drop_last() =~= all.subrange(0, k));
            assert(d == all[k]);
        }
        if d.vid == vid {
            kept.push(d);
        }
        proof {
            k = k + 1;
            assert(rest@ =~= all.subrange(k, all.len() as int));
        }
    }
    assert(all.subrange(0, k) =~= all);
    proof {
        lemma_with_vendor_is_filter(all, vid);
    }
    kept
}

/// What to do once the candidate interfaces are known.
#[derive(Debug, Clone, Copy, PartialEq, Eq)]
pub enum OpenPlan {
    /// No interface matched: report the filter as not found.
    NotFound,
    /// Exactly one interface matched: open it directly.
    OpenOnly,
    /// Several interfaces matched: probe them in turn, starting at the
    /// first.
    Probe,
}

/// Chooses how to open `candidates` matching interfaces.
pub fn plan_open(candidates: usize) -> (r: OpenPlan)
    ensures
        candidates == 0 <==> r == OpenPlan::NotFound,
        candidates == 1 <==> r == OpenPlan::OpenOnly,
        candidates > 1 <==> r == OpenPlan::Probe,
{
    if candidates == 0 {
        OpenPlan::NotFound
    } else if candidates == 1 {
        OpenPlan::OpenOnly
    } else {
        OpenPlan::Probe
    }
}

/// The next move after probing candidate `index`.
#[derive(Debug, Clone, Copy, PartialEq, Eq)]
pub enum ProbeStep {
    /// Keep the interface at this index: it produced a report.
    Accept(usize),
    /// Probe the interface at this index next.
    Next(usize),
    /// No interface produced a report: reopen the first one.
    Fallback,
}

/// The step after probing candidate `index` of `count`, given whether it
/// opened and produced a report of at least one byte within the probe
/// timeout.
pub open spec fn probe_step_spec(index: int, count: int, responded: bool) -> ProbeStep {
    if responded {
        ProbeStep::Accept(index as usize)
    } else if index + 1 < count {
        ProbeStep::Next((index + 1) as usize)
    } else {
        ProbeStep::Fallback
    }
}

/// Decides what follows the probe of candidate `index` (of `count`):
/// accept it if it responded, else probe the next one, else fall back.
pub fn probe_step(index: usize, count: usize, responded: bool) -> (r: ProbeStep)
    requires
        index < count,
    ensures
        r == probe_step_spec(index as int, count as int, responded),
{
    if responded {
        ProbeStep::Accept(index)
    } else if index + 1 < count {
        ProbeStep::Next(index + 1)
    } else {
        ProbeStep::Fallback
    }
}

/// The index of the interface chosen by probing from candidate `from` on,
/// where `responds[i]` tells whether candidate `i` would respond: the
/// first responding one, else the first candidate overall.
pub open spec fn probe_outcome(responds: Seq<bool>, from: int) -> int
    decreases responds.len() - from,
{
    if from >= responds.len() {
        0
    } else {
        match probe_step_spec(from, responds.len() as int, responds[from]) {
            ProbeStep::Accept(i) => i as int,
            ProbeStep::Next(j) => if from < j as int && j as int <= responds.len() {
                probe_outcome(responds, j as int)
            } else {
                0
            },
            ProbeStep::Fallback => 0,
        }
    }
}

/// Probing the candidates in turn with [`probe_step`] selects the first
/// interface that produces a report, and falls back to the first candidate
/// when none does.
pub proof fn lemma_probe_selects_first_responsive(responds: Seq<bool>, from: int)
    requires
        0 <= from <= responds.len(),
        responds.len() <= usize::MAX,
    ensures
        (exists|i: int| from <= i < responds.len() && responds[i]) ==> {
            let k = probe_outcome(responds, from);
            &&& from <= k < responds.len()
            &&& responds[k]
            &&& forall|j: int| from <= j < k ==> !responds[j]
        },
        (forall|i: int| from <= i < responds.len() ==> !responds[i]) ==> probe_outcome(
            responds,
            from,
        ) == 0,
    decreases responds.len() - from,
{
    if from < responds.len() {
        lemma_probe_selects_first_responsive(responds, from + 1);
    }
}

/// One of the controller's 4 haptic motors.
#[derive(Debug, Clone, Copy, PartialEq, Eq)]
pub enum Motor {
    A,
    B,
    C,
    D,
}

/// The output report id that drives `motor`.
pub open spec fn rumble_report_id(motor: Motor) -> u8 {
    match motor {
        Motor::A => 0x80,
        Motor::B => 0x80,
        Motor::C => 0x81,
        Motor::D => 0x84,
    }
}

/// The length of the output report that drives `motor`.
pub open spec fn rumble_report_len(motor: Motor) -> nat {
    match motor {
        Motor::A => 10,
        Motor::B => 10,
        Motor::C => 8,
        Motor::D => 9,
    }
}

/// `true` when byte `i` of `motor`'s report carries the amplitude.
pub open spec fn rumble_amplitude_byte(motor: Motor, i: int) -> bool {
    match motor {
        Motor::A => i == 4 || i == 5,
        Motor::B => i == 7 || i == 8,
        Motor::C => i == 2,
        Motor::D => i == 3,
    }
}

/// The HID output report that pulses `motor` at `amplitude`: the motor's
/// report id, then zeros except the motor's amplitude bytes.
pub fn rumble_report(motor: Motor, amplitude: u8) -> (r: Vec<u8>)
    ensures
        r@.len() == rumble_report_len(motor),
        r@[0] == rumble_report_id(motor),
        forall|i: int|
            1 <= i < r@.len() ==> #[trigger] r@[i] == (if rumble_amplitude_byte(motor, i) {
                amplitude
            } else {
                0u8
            }),
        motor == Motor::A ==> r@ == seq![0x80u8, 0, 0, 0, amplitude, amplitude, 0, 0, 0, 0],
        motor == Motor::B ==> r@ == seq![0x80u8, 0, 0, 0, 0, 0, 0, amplitude, amplitude, 0],
        motor == Motor::C ==> r@ == seq![0x81u8, 0, amplitude, 0, 0, 0, 0, 0],
        motor == Motor::D ==> r@ == seq![0x84u8, 0, 0, amplitude, 0, 0, 0, 0, 0],
{
    let (report_id, len): (u8, usize) = match motor {
        Motor::A => (0x80, 10),
        Motor::B => (0x80, 10),
        Motor::C => (0x81, 8),
        Motor::D => (0x84, 9),
    };
    let mut report: Vec<u8> = Vec::new();
    report.push(report_id);
    let mut i: usize = 1;
    while i < len
        invariant
            1 <= i <= len,
            len == rumble_report_len(motor),
            report@.len() == i,
            report@[0] == report_id,
            report_id == rumble_report_id(motor),
            forall|j: int|
                1 <= j < i ==> #[trigger] report@[j] == (if rumble_amplitude_byte(motor, j) {
                    amplitude
                } else {
                    0u8
                }),
        decreases len - i,
    {
        let carries = match motor {
            Motor::A => i == 4 || i == 5,
            Motor::B => i == 7 || i == 8,
            Motor::C => i == 2,
            Motor::D => i == 3,
        };
        report.push(if carries { amplitude } else { 0 });
        i = i + 1;
    }
    proof {
        let a = amplitude;
        let expected = match motor {
            Motor::A => seq![0x80u8, 0, 0, 0, a, a, 0, 0, 0, 0],
            Motor::B => seq![0x80u8, 0, 0, 0, 0, 0, 0, a, a, 0],
            Motor::C => seq![0x81u8, 0, a, 0, 0, 0, 0, 0],
            Motor::D => seq![0x84u8, 0, 0, a, 0, 0, 0, 0, 0],
        };
        assert forall|j: int| 0 <= j < report@.len() implies report@[j] == expected[j] by {
            if j > 0 {
                assert(report@[j] == (if rumble_amplitude_byte(motor, j) { a } else { 0u8 }));
            }
        }
        assert(report@ =~= expected);
    }
    report
}

/// The motor named by `name`: one letter `a`, `b`, `c` or `d`, in either
/// case.
pub open spec fn motor_named(name: Seq<char>) -> Option<Motor> {
    if name.len() != 1 {
        None
    } else if name[0] == 'a' || name[0] == 'A' {
        Some(Motor::A)
    } else if name[0] == 'b' || name[0] == 'B' {
        Some(Motor::B)
    } else if name[0] == 'c' || name[0] == 'C' {
        Some(Motor::C)
    } else if name[0] == 'd' || name[0] == 'D' {
        Some(Motor::D)
    } else {
        None
    }
}

/// Parses a motor slot name (`a`/`b`/`c`/`d`, case-insensitive).
pub fn parse_motor(name: &str) -> (r: Option<Motor>)
    ensures
        r == motor_named(name@),
{
    if name.unicode_len() != 1 {
        return None;
    }
    let c = name.get_char(0);
    if c == 'a' || c == 'A' {
        Some(Motor::A)
    } else if c == 'b' || c == 'B' {
        Some(Motor::B)
    } else if c == 'c' || c == 'C' {
        Some(Motor::C)
    } else if c == 'd' || c == 'D' {
        Some(Motor::D)
    } else {
        None
    }
}

} // verus!
