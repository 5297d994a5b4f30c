//! Running a machine on its virtual devices: which devices it has, in which
//! order, what its kernel is told of them, and what becomes of the run.
//!
//! The hypervisor, the devices and the window are outside.
use crate::laws::devices;
use crate::profile;
use crate::profile::{DiskSection, DiskView};
use crate::text;
use vstd::prelude::*;

verus! {

// ---------------------------------------------------------------------------
// Hardware addresses
// ---------------------------------------------------------------------------

/// The value of a hexadecimal digit.
pub open spec fn hex_digit(c: char) -> Option<nat> {
    let n = c as u32;
    if 48 <= n <= 57 {
        Some((n - 48) as nat)
    } else if 97 <= n <= 102 {
        Some((n - 87) as nat)
    } else if 65 <= n <= 70 {
        Some((n - 55) as nat)
    } else {
        None
    }
}

fn hex(c: char) -> (r: Option<u32>)
    ensures
        match r {
            Some(n) => hex_digit(c) == Some(n as nat) && n < 16,
            None => hex_digit(c) is None,
        },
{
    let n: u32 = c as u32;
    if 48 <= n && n <= 57 {
        Some(n - 48)
    } else if 97 <= n && n <= 102 {
        Some(n - 87)
    } else if 65 <= n && n <= 70 {
        Some(n - 55)
    } else {
        None
    }
}

/// The number that hexadecimal digits denote, if all of them are such.
pub open spec fn hex_of(s: Seq<char>) -> Option<nat>
    decreases s.len(),
{
    if s.len() == 0 {
        Some(0)
    } else {
        match (hex_of(s.drop_last()), hex_digit(s.last())) {
            (Some(n), Some(d)) => Some(16 * n + d),
            _ => None,
        }
    }
}

/// The octet that a text denotes: hexadecimal digits, after an optional plus
/// sign.
pub open spec fn octet_of(s: Seq<char>) -> Option<nat> {
    let body = if s.len() > 0 && s[0] == '+' {
        s.drop_first()
    } else {
        s
    };
    if body.len() == 0 {
        None
    } else {
        match hex_of(body) {
            Some(n) => if n <= 255 {
                Some(n)
            } else {
                None
            },
            None => None,
        }
    }
}

proof fn lemma_hex_stays(s: Seq<char>, k: int)
    requires
        0 <= k <= s.len(),
    ensures
        match hex_of(s.take(k)) {
            None => hex_of(s) is None,
            Some(n) => hex_of(s) matches Some(m) ==> n <= m,
        },
    decreases s.len() - k,
{
    if k < s.len() {
        lemma_hex_stays(s, k + 1);
        assert(s.take(k + 1).drop_last() =~= s.take(k));
    } else {
        assert(s.take(k) =~= s);
    }
}

fn octet(s: &str) -> (r: Option<u8>)
    ensures
        match r {
            Some(n) => octet_of(s@) == Some(n as nat),
            None => octet_of(s@) is None,
        },
{
    let v = text::chars_of(s);
    let from: usize = if v.len() > 0 && v[0] == '+' {
        1
    } else {
        0
    };
    let ghost body = s@.skip(from as int);
    proof {
        if from == 0 {
            assert(body =~= s@);
        } else {
            assert(body =~= s@.drop_first());
        }
    }
    if from == v.len() {
        return None;
    }
    let mut n: u32 = 0;
    let mut i: usize = from;
    assert(body.take(0) =~= Seq::<char>::empty());
    while i < v.len()
        invariant
            v@ == s@,
            body == s@.skip(from as int),
            from <= i <= v@.len(),
            body.len() > 0,
            n <= 255,
            hex_of(body.take(i - from)) == Some(n as nat),
            octet_of(s@) == (match hex_of(body) {
                Some(m) => if m <= 255 {
                    Some(m)
                } else {
                    None
                },
                None => None,
            }),
        decreases v@.len() - i,
    {
        proof {
            assert(body.take(i + 1 - from).drop_last() =~= body.take(i - from));
            assert(body.take(i + 1 - from).last() == v@[i as int]);
            lemma_hex_stays(body, i + 1 - from);
        }
        match hex(v[i]) {
            None => return None,
            Some(d) => {
                n = n * 16 + d;
            },
        }
        if n > 255 {
            return None;
        }
        i = i + 1;
    }
    assert(body.take(v@.len() - from) =~= body);
    Some(n as u8)
}

/// A hardware address.
#[derive(Debug, PartialEq, Eq)]
pub struct MacAddr(pub Vec<u8>);

/// The first six parts are octets, as far as there are six.
pub open spec fn octets_stand(parts: Seq<Seq<char>>) -> bool {
    forall|i: int| 0 <= i < parts.len() && i < 6 ==> octet_of(#[trigger] parts[i]) is Some
}

/// `mac` is the address that `text` denotes.
pub open spec fn denotes(mac: Seq<u8>, parts: Seq<Seq<char>>) -> bool {
    &&& parts.len() == 6
    &&& mac.len() == 6
    &&& forall|i: int|
        0 <= i < 6 ==> octet_of(#[trigger] parts[i]) == Some(mac[i] as nat)
}

/// Reads an address like `52:00:ab:01:02:03`.
pub fn parse_mac(text: &str) -> (r: Result<MacAddr, String>)
    ensures
        ({
            let parts = text::split_of(text@, ':');
            if !octets_stand(parts) {
                r matches Err(e) && e@ == "invalid MAC address '"@ + text@ + "'"@
            } else if parts.len() != 6 {
                r matches Err(e) && e@ == "invalid MAC address '"@ + text@
                    + "': expected 6 octets"@
            } else {
                r matches Ok(mac) && denotes(mac.0@, parts)
            }
        }),
{
    let parts = text::split(text, ':');
    let ghost all = text::texts(parts@);
    let mut bytes: Vec<u8> = Vec::new();
    let mut i: usize = 0;
    while i < parts.len() && i < 6
        invariant
            all == text::texts(parts@),
            all == text::split_of(text@, ':'),
            i <= parts@.len(),
            i <= 6,
            bytes@.len() == i,
            forall|j: int| 0 <= j < i ==> octet_of(#[trigger] all[j]) == Some(bytes@[j] as nat),
        decreases parts@.len() - i,
    {
        assert(all[i as int] == parts@[i as int]@);
        match octet(&parts[i]) {
            Some(n) => bytes.push(n),
            None => {
                return Err(text::cat3("invalid MAC address '", text, "'"));
            },
        }
        i = i + 1;
    }
    if parts.len() != 6 {
        return Err(text::cat3("invalid MAC address '", text, "': expected 6 octets"));
    }
    Ok(MacAddr(bytes))
}

// ---------------------------------------------------------------------------
// Devices
// ---------------------------------------------------------------------------

/// A network on a host interface that exists already.
#[derive(Debug, PartialEq, Eq)]
pub struct TapSection {
    pub interface: String,
    /// `None` means that it derives from the machine's name.
    pub mac: Option<String>,
}

/// A virtual device.
#[derive(Debug, PartialEq, Eq)]
pub enum Device {
    Block(DiskSection),
    Net { interface: String, mac: Option<String> },
    Gpu,
    Keyboard,
    Tablet,
}

/// A virtual device as plain values.
pub ghost enum DeviceView {
    Block(DiskView),
    Net { interface: Seq<char>, mac: Option<Seq<char>> },
    Gpu,
    Keyboard,
    Tablet,
}

impl View for Device {
    type V = DeviceView;

    open spec fn view(&self) -> DeviceView {
        match *self {
            Device::Block(disk) => DeviceView::Block(disk@),
            Device::Net { interface, mac } => DeviceView::Net {
                interface: interface@,
                mac: text::opt_text(mac),
            },
            Device::Gpu => DeviceView::Gpu,
            Device::Keyboard => DeviceView::Keyboard,
            Device::Tablet => DeviceView::Tablet,
        }
    }
}

pub open spec fn device_views(devices: Seq<Device>) -> Seq<DeviceView> {
    devices.map_values(|d: Device| d@)
}

/// A machine's devices, in the order in which the guest finds them: its disks in
/// their own order, so the first becomes `/dev/vda`, then the network, if it has
/// one, the display, the keyboard and the tablet.
pub open spec fn devices_of(disks: Seq<DiskView>, network: Option<TapSection>) -> Seq<DeviceView> {
    disks.map_values(|d: DiskView| DeviceView::Block(d)) + (match network {
        Some(net) => seq![
            DeviceView::Net { interface: net.interface@, mac: text::opt_text(net.mac) },
        ],
        None => Seq::<DeviceView>::empty(),
    }) + seq![DeviceView::Gpu, DeviceView::Keyboard, DeviceView::Tablet]
}

/// A machine's devices, in the order in which they are attached.
pub fn device_plan(disks: &Vec<DiskSection>, network: &Option<TapSection>) -> (r: Vec<Device>)
    ensures
        device_views(r@) == devices_of(profile::disk_views(disks@), *network),
        forall|i: int|
            0 <= i < disks@.len() ==> ((#[trigger] r@[i]) matches Device::Block(d) && d.path@
                == disks@[i].path@ && d.writable == disks@[i].writable),
        *network matches Some(net) ==> (r@[disks@.len() as int] matches Device::Net {
            interface,
            mac,
        } && interface@ == net.interface@ && text::opt_text(mac) == text::opt_text(net.mac)),
        r@.len() == disks@.len() + (if network is Some {
            4int
        } else {
            3int
        }),
        r@[r@.len() - 3] is Gpu,
        r@[r@.len() - 2] is Keyboard,
        r@[r@.len() - 1] is Tablet,
{
    let mut devices: Vec<Device> = Vec::new();
    let ghost all = profile::disk_views(disks@).map_values(|d: DiskView| DeviceView::Block(d));
    let mut i: usize = 0;
    while i < disks.len()
        invariant
            all == profile::disk_views(disks@).map_values(|d: DiskView| DeviceView::Block(d)),
            i <= disks@.len(),
            device_views(devices@) =~= all.take(i as int),
        decreases disks@.len() - i,
    {
        let ghost before = device_views(devices@);
        let disk = disks[i].clone();
        devices.push(Device::Block(disk));
        proof {
            assert(device_views(devices@) =~= before.push(DeviceView::Block(disks@[i as int]@)));
            assert(all[i as int] == DeviceView::Block(disks@[i as int]@));
        }
        i = i + 1;
    }
    assert(all.take(i as int) =~= all);
    let ghost blocks = device_views(devices@);
    if let Some(net) = network {
        devices.push(
            Device::Net { interface: net.interface.clone(), mac: text::clone_opt(&net.mac) },
        );
    }
    devices.push(Device::Gpu);
    devices.push(Device::Keyboard);
    devices.push(Device::Tablet);
    assert(device_views(devices@) =~= devices_of(profile::disk_views(disks@), *network));
    proof {
        devices::every_disk_becomes_its_device(disks@, *network);
        assert forall|i: int| 0 <= i < disks@.len() implies ((#[trigger] devices@[i]) matches
            Device::Block(d) && d.path@ == disks@[i].path@ && d.writable == disks@[i].writable) by {
            assert(device_views(devices@)[i] == devices@[i]@);
        }
    }
    devices
}

/// Why a device could not be attached.
pub fn attach_error(device: &Device, source: &str) -> (r: String)
    ensures
        r@ == match *device {
            Device::Block(disk) => "cannot attach disk "@ + disk.path@ + ": "@ + source@,
            Device::Net { interface, .. } => "cannot open TAP '"@ + interface@ + "': "@ + source@,
            _ => source@,
        },
{
    match device {
        Device::Block(disk) => text::cat4("cannot attach disk ", &disk.path, ": ", source),
        Device::Net { interface, .. } => text::cat4("cannot open TAP '", interface, "': ", source),
        _ => source.to_owned(),
    }
}

pub open spec fn cmdline_of(configured: Seq<char>, clauses: Seq<char>) -> Seq<char> {
    let own = text::trim_of(configured);
    if clauses.len() == 0 {
        own
    } else if own.len() == 0 {
        clauses
    } else {
        own + " "@ + clauses
    }
}

/// The kernel command line with the clauses that name the devices: the only way
/// in which the guest learns where they are.
pub fn extend_cmdline(configured: &str, clauses: &str) -> (r: String)
    ensures
        r@ == cmdline_of(configured@, clauses@),
{
    let own = text::trim(configured);
    if clauses.is_empty() {
        return own;
    }
    if own.as_str().is_empty() {
        return clauses.to_owned();
    }
    text::cat3(&own, " ", clauses)
}

/// However the configured command line is padded, the guest is told the same.
pub proof fn padding_is_dropped(configured: Seq<char>, clauses: Seq<char>)
    ensures
        cmdline_of(text::trim_of(configured), clauses) == cmdline_of(configured, clauses),
{
    text::trim_is_idempotent(configured);
}

// ---------------------------------------------------------------------------
// The run
// ---------------------------------------------------------------------------

/// Where a machine's picture goes.
#[derive(Debug, Clone, Copy, PartialEq, Eq, Structural)]
pub enum Presentation {
    Windowed,
    Headless,
}

/// A window when one is wanted and could be opened, no window otherwise.
pub fn presentation(headless: bool, window_opened: bool) -> (r: Presentation)
    ensures
        r == (if !headless && window_opened {
            Presentation::Windowed
        } else {
            Presentation::Headless
        }),
{
    if !headless && window_opened {
        Presentation::Windowed
    } else {
        Presentation::Headless
    }
}

/// The title of a machine's window.
pub fn title(name: &str) -> (r: String)
    ensures
        r@ == "VMHost — "@ + name@,
{
    text::cat("VMHost — ", name)
}

/// What the window reports besides input.
#[derive(Debug, Clone, Copy, PartialEq, Eq, Structural)]
pub enum ControlEvent {
    QuitRequested,
    WindowCloseRequested,
    GrabToggled(bool),
}

/// Whether an event asks for the machine to stop.
pub fn asks_to_stop(event: ControlEvent) -> (r: bool)
    ensures
        r == !(event is GrabToggled),
{
    match event {
        ControlEvent::QuitRequested | ControlEvent::WindowCloseRequested => true,
        ControlEvent::GrabToggled(_) => false,
    }
}

/// Whether a processor starts at the kernel's entry. The others wait for the
/// guest to start them.
pub fn is_boot_processor(index: u32) -> (r: bool)
    ensures
        r == (index == 0),
{
    index == 0
}

#[derive(Debug, Clone, Copy, PartialEq, Eq, Structural)]
pub enum VmState {
    Created,
    Running,
    Stopping,
    Stopped,
    Crashed,
}

/// The message of the last processor that failed.
pub open spec fn failure_of(outcomes: Seq<Result<(), String>>) -> Option<Seq<char>>
    decreases outcomes.len(),
{
    if outcomes.len() == 0 {
        None
    } else {
        match outcomes.last() {
            Err(e) => Some(
                "vCPU "@ + text::decimal_of((outcomes.len() - 1) as nat) + " failed: "@ + e@,
            ),
            Ok(()) => failure_of(outcomes.drop_last()),
        }
    }
}

/// What a run comes to, from what became of each processor: the state the
/// machine ends in, and the failure that is reported.
pub fn finish(outcomes: &Vec<Result<(), String>>) -> (r: (VmState, Result<(), String>))
    ensures
        match failure_of(outcomes@) {
            Some(m) => r.0 == VmState::Crashed && (r.1 matches Err(e) && e@ == m),
            None => r.0 == VmState::Stopped && r.1 is Ok,
        },
{
    let mut i: usize = outcomes.len();
    assert(outcomes@.take(i as int) =~= outcomes@);
    while i > 0
        invariant
            i <= outcomes.len(),
            failure_of(outcomes@) == failure_of(outcomes@.take(i as int)),
        decreases i,
    {
        proof {
            assert(outcomes@.take(i as int).drop_last() =~= outcomes@.take(i - 1));
            assert(outcomes@.take(i as int).last() == outcomes@[i - 1]);
        }
        i = i - 1;
        if let Err(e) = &outcomes[i] {
            return (
                VmState::Crashed,
                Err(text::cat4("vCPU ", &text::decimal(i as u64), " failed: ", e)),
            );
        }
    }
    (VmState::Stopped, Ok(()))
}

/// A run fails exactly when one of its processors did.
pub proof fn any_failing_processor_fails_the_run(outcomes: Seq<Result<(), String>>)
    ensures
        failure_of(outcomes) is Some <==> exists|i: int|
            0 <= i < outcomes.len() && (#[trigger] outcomes[i]) is Err,
    decreases outcomes.len(),
{
    if outcomes.len() > 0 {
        let init = outcomes.drop_last();
        any_failing_processor_fails_the_run(init);
        if failure_of(init) is Some {
            let i = choose|i: int| 0 <= i < init.len() && (#[trigger] init[i]) is Err;
            assert(outcomes[i] is Err);
        }
        if outcomes.last() is Ok && exists|i: int|
            0 <= i < outcomes.len() && (#[trigger] outcomes[i]) is Err {
            let i = choose|i: int| 0 <= i < outcomes.len() && (#[trigger] outcomes[i]) is Err;
            assert(init[i] is Err);
        }
        if outcomes.last() is Err {
            assert(outcomes[outcomes.len() - 1] is Err);
        }
    }
}

} // verus!
